//! RSI and MACD divergence against price over the last 35 candles.
//!
//! Divergence is price making a new extreme in the second half of the window
//! while the oscillator, read at the two extremes, fails to follow.
use crate::decimal::{
    checked_sub, decimal_round_dp, decimal_sub, le, less, lt, round_dp, Dec,
};
use crate::domain::{candles_wf, Candle};
use crate::rules::chart::{bottom_of, first_bottom};
use crate::rules::series::{closes, closes_of, decs_wf, ema, rsi, spec_ema, spec_rsi};
use vstd::prelude::*;
use vstd::slice::slice_subrange;

verus! {

/// `k` is the last index of `[lo, hi)` with the highest high, the element
/// `Iterator::max_by` picks among equals.
pub open spec fn last_top(cs: Seq<Candle>, lo: int, hi: int, k: int) -> bool {
    &&& lo <= k < hi
    &&& forall|j: int| lo <= j < hi ==> le((#[trigger] cs[j]).high, cs[k].high)
    &&& forall|j: int| k < j < hi ==> lt((#[trigger] cs[j]).high, cs[k].high)
}

pub open spec fn last_top_of(cs: Seq<Candle>, lo: int, hi: int) -> int {
    choose|k: int| last_top(cs, lo, hi, k)
}

/// RSI(14) of the closes before `end`; inner `None` when `end` is below 15
/// or past the end.
pub open spec fn rsi_at(s: Seq<Dec>, end: int) -> Option<Option<Dec>> {
    if end < 15 || end > s.len() {
        Some(None)
    } else {
        spec_rsi(s.subrange(0, end), 14)
    }
}

/// MACD line (EMA12 - EMA26, to 10 places) of the closes before `end`;
/// inner `None` when `end` is below 26 or past the end.
pub open spec fn macd_at(s: Seq<Dec>, end: int) -> Option<Option<Dec>> {
    if end < 26 || end > s.len() {
        Some(None)
    } else {
        match spec_ema(s.subrange(0, end), 12) {
            Some(Some(fast)) => match spec_ema(s.subrange(0, end), 26) {
                Some(Some(slow)) => match decimal_sub(fast, slow) {
                    Some(d) => Some(Some(decimal_round_dp(d, 10))),
                    None => None,
                },
                Some(None) => Some(None),
                None => None,
            },
            Some(None) => Some(None),
            None => None,
        }
    }
}

/// The second reading is below the first, both being present.
pub open spec fn falls(r1: Option<Option<Dec>>, r2: Option<Option<Dec>>) -> Option<bool> {
    match (r1, r2) {
        (Some(a), Some(b)) => Some(
            match (a, b) {
                (Some(x), Some(y)) => lt(y, x),
                _ => false,
            },
        ),
        _ => None,
    }
}

/// The second reading is above the first, both being present.
pub open spec fn rises(r1: Option<Option<Dec>>, r2: Option<Option<Dec>>) -> Option<bool> {
    match (r1, r2) {
        (Some(a), Some(b)) => Some(
            match (a, b) {
                (Some(x), Some(y)) => lt(x, y),
                _ => false,
            },
        ),
        _ => None,
    }
}

pub open spec fn div_label(bear: bool, bull: bool) -> Seq<char> {
    if bear {
        "bearish"@
    } else if bull {
        "bullish"@
    } else {
        "none"@
    }
}

/// RSI and MACD divergence labels; `None` when a decimal operation overflows.
pub open spec fn spec_divergence(cs: Seq<Candle>) -> Option<(Seq<char>, Seq<char>)> {
    let n = cs.len() as int;
    if n < 35 {
        Some(("none"@, "none"@))
    } else {
        let s = closes_of(cs);
        let start = n - 35;
        let mid = start + 17;
        let h1 = last_top_of(cs, start, mid);
        let h2 = last_top_of(cs, mid, n);
        let bear = lt(cs[h1].high, cs[h2].high) && h1 > 0;
        let bear_rsi = if bear {
            falls(rsi_at(s, h1 + 1), rsi_at(s, h2 + 1))
        } else {
            Some(false)
        };
        let bear_macd = if bear {
            falls(macd_at(s, h1 + 1), macd_at(s, h2 + 1))
        } else {
            Some(false)
        };
        let l1 = bottom_of(cs, start, mid, mid);
        let l2 = bottom_of(cs, mid, n, n);
        let bull = lt(cs[l2].low, cs[l1].low);
        let bull_rsi = if bull {
            rises(rsi_at(s, l1 + 1), rsi_at(s, l2 + 1))
        } else {
            Some(false)
        };
        let bull_macd = if bull {
            rises(macd_at(s, l1 + 1), macd_at(s, l2 + 1))
        } else {
            Some(false)
        };
        match (bear_rsi, bear_macd, bull_rsi, bull_macd) {
            (Some(br), Some(bm), Some(ur), Some(um)) => Some(
                (div_label(br, ur), div_label(bm, um)),
            ),
            _ => None,
        }
    }
}

proof fn lemma_last_top_unique(cs: Seq<Candle>, lo: int, hi: int, k: int)
    requires
        last_top(cs, lo, hi, k),
    ensures
        last_top_of(cs, lo, hi) == k,
{
    let c = last_top_of(cs, lo, hi);
    assert(last_top(cs, lo, hi, c));
    if c < k {
        assert(lt(cs[k].high, cs[c].high));
        assert(le(cs[c].high, cs[k].high));
    } else if k < c {
        assert(lt(cs[c].high, cs[k].high));
        assert(le(cs[k].high, cs[c].high));
    }
}

/// Last index of the highest high in `[lo, hi)`.
fn last_top_index(cs: &[Candle], lo: usize, hi: usize) -> (k: usize)
    requires
        candles_wf(cs@),
        lo < hi <= cs@.len(),
    ensures
        last_top(cs@, lo as int, hi as int, k as int),
        last_top_of(cs@, lo as int, hi as int) == k,
{
    let mut best = lo;
    let mut i = lo + 1;
    while i < hi
        invariant
            lo <= best < i <= hi,
            hi <= cs@.len(),
            candles_wf(cs@),
            last_top(cs@, lo as int, i as int, best as int),
        decreases hi - i,
    {
        assert(cs@[i as int].wf());
        assert(cs@[best as int].wf());
        if !less(cs[i].high, cs[best].high) {
            best = i;
        }
        i += 1;
    }
    proof {
        lemma_last_top_unique(cs@, lo as int, hi as int, best as int);
    }
    best
}

fn rsi_at_exec(s: &[Dec], end: usize) -> (r: Option<Option<Dec>>)
    requires
        decs_wf(s@),
    ensures
        r == rsi_at(s@, end as int),
        r matches Some(Some(x)) ==> x.wf(),
{
    if end < 15 || end > s.len() {
        return Some(None);
    }
    let pre = slice_subrange(s, 0, end);
    assert(decs_wf(pre@)) by {
        assert forall|i: int| 0 <= i < pre@.len() implies (#[trigger] pre@[i]).wf() by {
            assert(pre@[i] == s@[i]);
        }
    }
    rsi(pre, 14)
}

fn macd_at_exec(s: &[Dec], end: usize) -> (r: Option<Option<Dec>>)
    requires
        decs_wf(s@),
    ensures
        r == macd_at(s@, end as int),
        r matches Some(Some(x)) ==> x.wf(),
{
    if end < 26 || end > s.len() {
        return Some(None);
    }
    let pre = slice_subrange(s, 0, end);
    assert(decs_wf(pre@)) by {
        assert forall|i: int| 0 <= i < pre@.len() implies (#[trigger] pre@[i]).wf() by {
            assert(pre@[i] == s@[i]);
        }
    }
    let fast = match ema(pre, 12) {
        Some(Some(v)) => v,
        Some(None) => return Some(None),
        None => return None,
    };
    let slow = match ema(pre, 26) {
        Some(Some(v)) => v,
        Some(None) => return Some(None),
        None => return None,
    };
    match checked_sub(fast, slow) {
        Some(d) => Some(Some(round_dp(d, 10))),
        None => None,
    }
}

fn falls_exec(r1: Option<Option<Dec>>, r2: Option<Option<Dec>>) -> (r: Option<bool>)
    requires
        r1 matches Some(Some(x)) ==> x.wf(),
        r2 matches Some(Some(x)) ==> x.wf(),
    ensures
        r == falls(r1, r2),
{
    match (r1, r2) {
        (Some(a), Some(b)) => Some(
            match (a, b) {
                (Some(x), Some(y)) => less(y, x),
                _ => false,
            },
        ),
        _ => None,
    }
}

fn rises_exec(r1: Option<Option<Dec>>, r2: Option<Option<Dec>>) -> (r: Option<bool>)
    requires
        r1 matches Some(Some(x)) ==> x.wf(),
        r2 matches Some(Some(x)) ==> x.wf(),
    ensures
        r == rises(r1, r2),
{
    match (r1, r2) {
        (Some(a), Some(b)) => Some(
            match (a, b) {
                (Some(x), Some(y)) => less(x, y),
                _ => false,
            },
        ),
        _ => None,
    }
}

fn label(bear: bool, bull: bool) -> (r: String)
    ensures
        r@ == div_label(bear, bull),
{
    if bear {
        String::from_str("bearish")
    } else if bull {
        String::from_str("bullish")
    } else {
        String::from_str("none")
    }
}

/// RSI and MACD divergence labels: "bearish", "bullish" or "none".
pub fn detect_divergence(cs: &[Candle]) -> (r: Option<(String, String)>)
    requires
        candles_wf(cs@),
    ensures
        r is None <==> spec_divergence(cs@) is None,
        r matches Some((a, b)) ==> spec_divergence(cs@) == Some((a@, b@)),
{
    let n = cs.len();
    if n < 35 {
        return Some((String::from_str("none"), String::from_str("none")));
    }
    let s = closes(cs);
    let sl = s.as_slice();
    let start = n - 35;
    let mid = start + 17;
    let h1 = last_top_index(cs, start, mid);
    let h2 = last_top_index(cs, mid, n);
    assert(cs@[h1 as int].wf());
    assert(cs@[h2 as int].wf());
    let bear = less(cs[h1].high, cs[h2].high) && h1 > 0;
    let bear_rsi = if bear {
        falls_exec(rsi_at_exec(sl, h1 + 1), rsi_at_exec(sl, h2 + 1))
    } else {
        Some(false)
    };
    let bear_macd = if bear {
        falls_exec(macd_at_exec(sl, h1 + 1), macd_at_exec(sl, h2 + 1))
    } else {
        Some(false)
    };
    let l1 = crate::rules::chart::bottom_index(cs, start, mid, mid);
    let l2 = crate::rules::chart::bottom_index(cs, mid, n, n);
    assert(cs@[l1 as int].wf());
    assert(cs@[l2 as int].wf());
    let bull = less(cs[l2].low, cs[l1].low);
    let bull_rsi = if bull {
        rises_exec(rsi_at_exec(sl, l1 + 1), rsi_at_exec(sl, l2 + 1))
    } else {
        Some(false)
    };
    let bull_macd = if bull {
        rises_exec(macd_at_exec(sl, l1 + 1), macd_at_exec(sl, l2 + 1))
    } else {
        Some(false)
    };
    match (bear_rsi, bear_macd, bull_rsi, bull_macd) {
        (Some(br), Some(bm), Some(ur), Some(um)) => Some((label(br, ur), label(bm, um))),
        _ => None,
    }
}

} // verus!
