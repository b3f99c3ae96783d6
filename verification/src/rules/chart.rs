//! Chart patterns over the last twenty candles, and the whole pattern map.
use crate::decimal::{
    abs, checked_mul, checked_sub, decimal_mul, decimal_sub, dn, is_zero, is_zero_dec, le, less,
    less_eq, lt, one, spec_one, spec_zero, zero, Dec,
};
use crate::domain::{candles_wf, Candle};
use crate::rules::indicators::map_wf;
use crate::rules::oscillators::{fold_high, fold_low, highest_high, lowest_low};
use crate::rules::patterns::{
    all_bear, all_bull, put, runs, shape, single, spec_runs, spec_shape, spec_single, spec_three,
    spec_two, three, two, expanding, narrowing, span, spans_ok, flat_candle, PMap, Shape,
};
use crate::rules::series::{atr, spec_abs, spec_atr, tr_sum};
use vstd::hash_map::StringHashMap;
use vstd::prelude::*;

verus! {

/// `k` is the first index of `[lo, hi)` other than `skip` with the highest high:
/// the first entry after a stable sort by high, descending.
pub open spec fn first_top(cs: Seq<Candle>, lo: int, hi: int, skip: int, k: int) -> bool {
    &&& lo <= k < hi
    &&& k != skip
    &&& forall|j: int| lo <= j < hi && j != skip ==> le((#[trigger] cs[j]).high, cs[k].high)
    &&& forall|j: int| lo <= j < k && j != skip ==> lt((#[trigger] cs[j]).high, cs[k].high)
}

/// `k` is the first index of `[lo, hi)` other than `skip` with the lowest low:
/// the first entry after a stable sort by low, ascending.
pub open spec fn first_bottom(cs: Seq<Candle>, lo: int, hi: int, skip: int, k: int) -> bool {
    &&& lo <= k < hi
    &&& k != skip
    &&& forall|j: int| lo <= j < hi && j != skip ==> le(cs[k].low, (#[trigger] cs[j]).low)
    &&& forall|j: int| lo <= j < k && j != skip ==> lt(cs[k].low, (#[trigger] cs[j]).low)
}

pub open spec fn top_of(cs: Seq<Candle>, lo: int, hi: int, skip: int) -> int {
    choose|k: int| first_top(cs, lo, hi, skip, k)
}

pub open spec fn bottom_of(cs: Seq<Candle>, lo: int, hi: int, skip: int) -> int {
    choose|k: int| first_bottom(cs, lo, hi, skip, k)
}

pub open spec fn idx_gap(a: int, b: int) -> int {
    if a < b {
        b - a
    } else {
        a - b
    }
}

pub open spec fn imin(a: int, b: int) -> int {
    if a < b {
        a
    } else {
        b
    }
}

pub open spec fn imax(a: int, b: int) -> int {
    if a < b {
        b
    } else {
        a
    }
}

/// Double top: the two highest highs at least 3 bars apart, within the
/// tolerance of each other, with a low between them more than the
/// tolerance below the first.
pub open spec fn double_top(cs: Seq<Candle>, i1: int, i2: int, tol: Dec) -> Option<bool> {
    if idx_gap(i1, i2) >= 3 {
        match decimal_sub(cs[i1].high, cs[i2].high) {
            Some(d) => if le(spec_abs(d), tol) {
                match decimal_sub(cs[i1].high, fold_low(cs, imin(i1, i2), imax(i1, i2))) {
                    Some(x) => Some(lt(tol, x)),
                    None => None,
                }
            } else {
                Some(false)
            },
            None => None,
        }
    } else {
        Some(false)
    }
}

/// Double bottom: the two lowest lows at least 3 bars apart, within the
/// tolerance of each other, with a high between them more than the
/// tolerance above the first.
pub open spec fn double_bottom(cs: Seq<Candle>, i1: int, i2: int, tol: Dec) -> Option<bool> {
    if idx_gap(i1, i2) >= 3 {
        match decimal_sub(cs[i1].low, cs[i2].low) {
            Some(d) => if le(spec_abs(d), tol) {
                match decimal_sub(fold_high(cs, imin(i1, i2), imax(i1, i2)), cs[i1].low) {
                    Some(x) => Some(lt(tol, x)),
                    None => None,
                }
            } else {
                Some(false)
            },
            None => None,
        }
    } else {
        Some(false)
    }
}

/// The chart patterns of the last 20 candles (of at least 20).
pub open spec fn spec_chart(cs: Seq<Candle>, p: PMap) -> Option<PMap> {
    let n = cs.len() as int;
    let w = n - 20;
    let h1 = top_of(cs, w, n, n);
    let h2 = top_of(cs, w, n, h1);
    let l1 = bottom_of(cs, w, n, n);
    let l2 = bottom_of(cs, w, n, l1);
    match spec_atr(cs, 14) {
        Some(a) => {
            let atr_val = match a {
                Some(v) => v,
                None => spec_zero(),
            };
            match decimal_mul(atr_val, dn(5, 1)) {
                Some(tol) => match (double_top(cs, h1, h2, tol), double_bottom(cs, l1, l2, tol)) {
                    (Some(top), Some(bottom)) => {
                        let p1 = if top {
                            p.insert("double_top"@, spec_one())
                        } else {
                            p
                        };
                        let p2 = if bottom {
                            p1.insert("double_bottom"@, spec_one())
                        } else {
                            p1
                        };
                        let q1_high = fold_high(cs, w, w + 5);
                        let q4_high = fold_high(cs, n - 5, n);
                        let q1_low = fold_low(cs, w, w + 5);
                        let q4_low = fold_low(cs, n - 5, n);
                        let p3 = if lt(q1_high, q4_high) && lt(q1_low, q4_low) {
                            p2.insert("uptrend_structure"@, spec_one())
                        } else if lt(q4_high, q1_high) && lt(q4_low, q1_low) {
                            p2.insert("downtrend_structure"@, spec_one())
                        } else {
                            p2
                        };
                        let cl = cs[n - 1].close;
                        let p4 = if lt(fold_high(cs, w, n - 1), cl) {
                            p3.insert("resistance_breakout"@, spec_one())
                        } else {
                            p3
                        };
                        Some(
                            if lt(cl, fold_low(cs, w, n - 1)) {
                                p4.insert("support_breakdown"@, spec_one())
                            } else {
                                p4
                            },
                        )
                    },
                    _ => None,
                },
                None => None,
            }
        },
        None => None,
    }
}

/// Every candlestick and chart pattern of the candles; empty without candles,
/// only a doji for a latest candle with no range, `None` when a decimal
/// operation overflows.
pub open spec fn spec_patterns(cs: Seq<Candle>) -> Option<PMap> {
    if cs.len() == 0 {
        Some(Map::empty())
    } else {
        match spec_shape(cs) {
            Some(s) => if is_zero(s.range) {
                Some(Map::empty().insert("doji"@, spec_one()))
            } else {
                let p1 = spec_single(s, Map::empty());
                let p2 = match p1 {
                    Some(q) => if cs.len() >= 2 {
                        spec_two(cs, s, q)
                    } else {
                        Some(q)
                    },
                    None => None,
                };
                let p3 = match p2 {
                    Some(q) => if cs.len() >= 3 {
                        spec_three(cs, s, q)
                    } else {
                        Some(q)
                    },
                    None => None,
                };
                let p4 = match p3 {
                    Some(q) => spec_runs(cs, q),
                    None => None,
                };
                match p4 {
                    Some(q) => if cs.len() >= 20 {
                        spec_chart(cs, q)
                    } else {
                        Some(q)
                    },
                    None => None,
                }
            },
            None => None,
        }
    }
}

proof fn lemma_top_unique(cs: Seq<Candle>, lo: int, hi: int, skip: int, k: int)
    requires
        first_top(cs, lo, hi, skip, k),
    ensures
        top_of(cs, lo, hi, skip) == k,
{
    let c = top_of(cs, lo, hi, skip);
    assert(first_top(cs, lo, hi, skip, c));
    if c < k {
        assert(lt(cs[c].high, cs[k].high));
        assert(le(cs[k].high, cs[c].high));
    } else if k < c {
        assert(lt(cs[k].high, cs[c].high));
        assert(le(cs[c].high, cs[k].high));
    }
}

proof fn lemma_bottom_unique(cs: Seq<Candle>, lo: int, hi: int, skip: int, k: int)
    requires
        first_bottom(cs, lo, hi, skip, k),
    ensures
        bottom_of(cs, lo, hi, skip) == k,
{
    let c = bottom_of(cs, lo, hi, skip);
    assert(first_bottom(cs, lo, hi, skip, c));
    if c < k {
        assert(lt(cs[k].low, cs[c].low));
        assert(le(cs[c].low, cs[k].low));
    } else if k < c {
        assert(lt(cs[c].low, cs[k].low));
        assert(le(cs[k].low, cs[c].low));
    }
}

/// First index of the highest high in `[lo, hi)`, skipping `skip`.
pub(crate) fn top_index(cs: &[Candle], lo: usize, hi: usize, skip: usize) -> (k: usize)
    requires
        candles_wf(cs@),
        lo + 2 <= hi <= cs@.len(),
    ensures
        first_top(cs@, lo as int, hi as int, skip as int, k as int),
        top_of(cs@, lo as int, hi as int, skip as int) == k,
{
    let mut best: usize = if lo == skip {
        lo + 1
    } else {
        lo
    };
    let mut i = best + 1;
    while i < hi
        invariant
            lo <= best < i <= hi,
            hi <= cs@.len(),
            candles_wf(cs@),
            first_top(cs@, lo as int, i as int, skip as int, best as int),
        decreases hi - i,
    {
        assert(cs@[i as int].wf());
        assert(cs@[best as int].wf());
        if i != skip && less(cs[best].high, cs[i].high) {
            best = i;
        }
        i += 1;
    }
    proof {
        lemma_top_unique(cs@, lo as int, hi as int, skip as int, best as int);
    }
    best
}

/// First index of the lowest low in `[lo, hi)`, skipping `skip`.
pub(crate) fn bottom_index(cs: &[Candle], lo: usize, hi: usize, skip: usize) -> (k: usize)
    requires
        candles_wf(cs@),
        lo + 2 <= hi <= cs@.len(),
    ensures
        first_bottom(cs@, lo as int, hi as int, skip as int, k as int),
        bottom_of(cs@, lo as int, hi as int, skip as int) == k,
{
    let mut best: usize = if lo == skip {
        lo + 1
    } else {
        lo
    };
    let mut i = best + 1;
    while i < hi
        invariant
            lo <= best < i <= hi,
            hi <= cs@.len(),
            candles_wf(cs@),
            first_bottom(cs@, lo as int, i as int, skip as int, best as int),
        decreases hi - i,
    {
        assert(cs@[i as int].wf());
        assert(cs@[best as int].wf());
        if i != skip && less(cs[i].low, cs[best].low) {
            best = i;
        }
        i += 1;
    }
    proof {
        lemma_bottom_unique(cs@, lo as int, hi as int, skip as int, best as int);
    }
    best
}

fn double_top_exec(cs: &[Candle], i1: usize, i2: usize, tol: Dec) -> (r: Option<bool>)
    requires
        candles_wf(cs@),
        i1 < cs@.len(),
        i2 < cs@.len(),
        tol.wf(),
    ensures
        r == double_top(cs@, i1 as int, i2 as int, tol),
{
    let gap = if i1 < i2 {
        i2 - i1
    } else {
        i1 - i2
    };
    if gap >= 3 {
        assert(cs@[i1 as int].wf());
        assert(cs@[i2 as int].wf());
        let d = match checked_sub(cs[i1].high, cs[i2].high) {
            Some(d) => d,
            None => return None,
        };
        if less_eq(abs(d), tol) {
            let (a, b) = if i1 < i2 {
                (i1, i2)
            } else {
                (i2, i1)
            };
            let valley = lowest_low(cs, a, b);
            match checked_sub(cs[i1].high, valley) {
                Some(x) => Some(less(tol, x)),
                None => None,
            }
        } else {
            Some(false)
        }
    } else {
        Some(false)
    }
}

fn double_bottom_exec(cs: &[Candle], i1: usize, i2: usize, tol: Dec) -> (r: Option<bool>)
    requires
        candles_wf(cs@),
        i1 < cs@.len(),
        i2 < cs@.len(),
        tol.wf(),
    ensures
        r == double_bottom(cs@, i1 as int, i2 as int, tol),
{
    let gap = if i1 < i2 {
        i2 - i1
    } else {
        i1 - i2
    };
    if gap >= 3 {
        assert(cs@[i1 as int].wf());
        assert(cs@[i2 as int].wf());
        let d = match checked_sub(cs[i1].low, cs[i2].low) {
            Some(d) => d,
            None => return None,
        };
        if less_eq(abs(d), tol) {
            let (a, b) = if i1 < i2 {
                (i1, i2)
            } else {
                (i2, i1)
            };
            let peak = highest_high(cs, a, b);
            match checked_sub(peak, cs[i1].low) {
                Some(x) => Some(less(tol, x)),
                None => None,
            }
        } else {
            Some(false)
        }
    } else {
        Some(false)
    }
}

/// Chart patterns of the last 20 candles.
pub fn chart(cs: &[Candle], p: &mut StringHashMap<Dec>) -> (ok: bool)
    requires
        candles_wf(cs@),
        cs@.len() >= 20,
        map_wf(old(p)@),
    ensures
        map_wf(final(p)@),
        ok ==> spec_chart(cs@, old(p)@) == Some(final(p)@),
        !ok ==> spec_chart(cs@, old(p)@) is None,
{
    let n = cs.len();
    let w = n - 20;
    let h1 = top_index(cs, w, n, n);
    let h2 = top_index(cs, w, n, h1);
    let l1 = bottom_index(cs, w, n, n);
    let l2 = bottom_index(cs, w, n, l1);
    let atr_val = match atr(cs, 14) {
        Some(Some(v)) => v,
        Some(None) => zero(),
        None => return false,
    };
    let tol = match checked_mul(atr_val, Dec::new(5, 1)) {
        Some(t) => t,
        None => return false,
    };
    let top = match double_top_exec(cs, h1, h2, tol) {
        Some(b) => b,
        None => return false,
    };
    let bottom = match double_bottom_exec(cs, l1, l2, tol) {
        Some(b) => b,
        None => return false,
    };
    if top {
        put(p, "double_top", one());
    }
    if bottom {
        put(p, "double_bottom", one());
    }
    let q1_high = highest_high(cs, w, w + 5);
    let q4_high = highest_high(cs, n - 5, n);
    let q1_low = lowest_low(cs, w, w + 5);
    let q4_low = lowest_low(cs, n - 5, n);
    if less(q1_high, q4_high) && less(q1_low, q4_low) {
        put(p, "uptrend_structure", one());
    } else if less(q4_high, q1_high) && less(q4_low, q1_low) {
        put(p, "downtrend_structure", one());
    }
    assert(cs@[n - 1].wf());
    let cl = cs[n - 1].close;
    if less(highest_high(cs, w, n - 1), cl) {
        put(p, "resistance_breakout", one());
    }
    if less(cl, lowest_low(cs, w, n - 1)) {
        put(p, "support_breakdown", one());
    }
    true
}

/// Every candlestick and chart pattern of the candles.
pub fn detect_patterns(cs: &[Candle]) -> (r: Option<StringHashMap<Dec>>)
    requires
        candles_wf(cs@),
    ensures
        r is None <==> spec_patterns(cs@) is None,
        r matches Some(m) ==> spec_patterns(cs@) == Some(m@) && map_wf(m@),
        cs@.len() > 0 && flat_candle(cs@.last()) && spec_atr(cs@, 14) is Some ==> r is Some && r.unwrap()@
            == Map::<Seq<char>, Dec>::empty().insert("doji"@, spec_one()),
{
    let mut p: StringHashMap<Dec> = StringHashMap::new();
    if cs.len() == 0 {
        assert(p@ == Map::<Seq<char>, Dec>::empty());
        return Some(p);
    }
    let s = match shape(cs) {
        Some(s) => s,
        None => return None,
    };
    if is_zero_dec(s.range) {
        put(&mut p, "doji", one());
        return Some(p);
    }
    if !single(&s, &mut p) {
        return None;
    }
    if cs.len() >= 2 && !two(cs, &s, &mut p) {
        return None;
    }
    if cs.len() >= 3 && !three(cs, &s, &mut p) {
        return None;
    }
    if !runs(cs, &mut p) {
        return None;
    }
    if cs.len() >= 20 && !chart(cs, &mut p) {
        return None;
    }
    Some(p)
}


// ------------------------------------------------------------ locality

/// `t` is the stretch of `cs` from `off` on.
pub open spec fn tail_of(cs: Seq<Candle>, t: Seq<Candle>, off: int) -> bool {
    0 <= off <= cs.len() && t == cs.subrange(off, cs.len() as int)
}

proof fn lemma_tail_index(cs: Seq<Candle>, t: Seq<Candle>, off: int)
    requires
        tail_of(cs, t, off),
    ensures
        t.len() == cs.len() - off,
        forall|i: int| off <= i < cs.len() ==> #[trigger] cs[i] == t[i - off],
{
    assert forall|i: int| off <= i < cs.len() implies #[trigger] cs[i] == t[i - off] by {}
}

proof fn lemma_tr_sum_tail(cs: Seq<Candle>, t: Seq<Candle>, off: int, pc: Dec, lo: int, hi: int)
    requires
        tail_of(cs, t, off),
        off <= lo,
        hi <= cs.len(),
    ensures
        tr_sum(cs, pc, lo, hi) == tr_sum(t, pc, lo - off, hi - off),
    decreases hi - lo,
{
    lemma_tail_index(cs, t, off);
    if lo < hi {
        lemma_tr_sum_tail(cs, t, off, pc, lo, hi - 1);
        assert(cs[hi - 1] == t[hi - 1 - off]);
    }
}

proof fn lemma_fold_tail(cs: Seq<Candle>, t: Seq<Candle>, off: int, lo: int, hi: int)
    requires
        tail_of(cs, t, off),
        off <= lo,
        hi <= cs.len(),
    ensures
        fold_high(cs, lo, hi) == fold_high(t, lo - off, hi - off),
        fold_low(cs, lo, hi) == fold_low(t, lo - off, hi - off),
    decreases hi - lo,
{
    lemma_tail_index(cs, t, off);
    if lo < hi {
        lemma_fold_tail(cs, t, off, lo, hi - 1);
        assert(cs[hi - 1] == t[hi - 1 - off]);
    }
}

#[verifier::spinoff_prover]
#[verifier::rlimit(30)]
proof fn lemma_atr_tail(cs: Seq<Candle>, t: Seq<Candle>, off: int)
    requires
        tail_of(cs, t, off),
        t.len() > 14,
    ensures
        spec_atr(cs, 14) == spec_atr(t, 14),
{
    lemma_tail_index(cs, t, off);
    let n = cs.len() as int;
    assert(cs[n - 15] == t[n - 15 - off]);
    lemma_tr_sum_tail(cs, t, off, cs[n - 15].close, n - 14, n);
}

/// `[lo, hi)` holds an index other than `skip`.
pub open spec fn has_other(lo: int, hi: int, skip: int) -> bool {
    if lo <= skip < hi {
        hi - lo >= 2
    } else {
        hi - lo >= 1
    }
}

proof fn lemma_top_exists(cs: Seq<Candle>, lo: int, hi: int, skip: int)
    requires
        has_other(lo, hi, skip),
    ensures
        exists|k: int| #[trigger] first_top(cs, lo, hi, skip, k),
    decreases hi - lo,
{
    if has_other(lo, hi - 1, skip) {
        lemma_top_exists(cs, lo, hi - 1, skip);
        let k = choose|k: int| #[trigger] first_top(cs, lo, hi - 1, skip, k);
        if hi - 1 != skip && lt(cs[k].high, cs[hi - 1].high) {
            assert(first_top(cs, lo, hi, skip, hi - 1));
        } else {
            assert(first_top(cs, lo, hi, skip, k));
        }
    } else {
        assert(hi - 1 != skip);
        assert(first_top(cs, lo, hi, skip, hi - 1));
    }
}

proof fn lemma_bottom_exists(cs: Seq<Candle>, lo: int, hi: int, skip: int)
    requires
        has_other(lo, hi, skip),
    ensures
        exists|k: int| #[trigger] first_bottom(cs, lo, hi, skip, k),
    decreases hi - lo,
{
    if has_other(lo, hi - 1, skip) {
        lemma_bottom_exists(cs, lo, hi - 1, skip);
        let k = choose|k: int| #[trigger] first_bottom(cs, lo, hi - 1, skip, k);
        if hi - 1 != skip && lt(cs[hi - 1].low, cs[k].low) {
            assert(first_bottom(cs, lo, hi, skip, hi - 1));
        } else {
            assert(first_bottom(cs, lo, hi, skip, k));
        }
    } else {
        assert(hi - 1 != skip);
        assert(first_bottom(cs, lo, hi, skip, hi - 1));
    }
}

/// The highest and lowest picks over the whole tail agree with those over `cs` from `off`.
proof fn lemma_picks_tail(cs: Seq<Candle>, t: Seq<Candle>, off: int, skip: int)
    requires
        tail_of(cs, t, off),
        off <= skip <= cs.len(),
        cs.len() - off >= 2,
    ensures
        off <= top_of(cs, off, cs.len() as int, skip) < cs.len(),
        top_of(t, 0, t.len() as int, skip - off) == top_of(cs, off, cs.len() as int, skip) - off,
        off <= bottom_of(cs, off, cs.len() as int, skip) < cs.len(),
        bottom_of(t, 0, t.len() as int, skip - off) == bottom_of(cs, off, cs.len() as int, skip) - off,
{
    lemma_tail_index(cs, t, off);
    let n = cs.len() as int;
    let m = t.len() as int;
    assert(has_other(off, n, skip));
    lemma_top_exists(cs, off, n, skip);
    lemma_bottom_exists(cs, off, n, skip);
    let k = choose|k: int| #[trigger] first_top(cs, off, n, skip, k);
    let b = choose|k: int| #[trigger] first_bottom(cs, off, n, skip, k);
    lemma_top_unique(cs, off, n, skip, k);
    lemma_bottom_unique(cs, off, n, skip, b);
    assert forall|j: int| 0 <= j < m && j != skip - off implies le((#[trigger] t[j]).high, t[k - off].high) by {
        assert(cs[j + off] == t[j]);
    }
    assert forall|j: int| 0 <= j < k - off && j != skip - off implies lt((#[trigger] t[j]).high, t[k - off].high) by {
        assert(cs[j + off] == t[j]);
    }
    assert(first_top(t, 0, m, skip - off, k - off));
    lemma_top_unique(t, 0, m, skip - off, k - off);
    assert forall|j: int| 0 <= j < m && j != skip - off implies le(t[b - off].low, (#[trigger] t[j]).low) by {
        assert(cs[j + off] == t[j]);
    }
    assert forall|j: int| 0 <= j < b - off && j != skip - off implies lt(t[b - off].low, (#[trigger] t[j]).low) by {
        assert(cs[j + off] == t[j]);
    }
    assert(first_bottom(t, 0, m, skip - off, b - off));
    lemma_bottom_unique(t, 0, m, skip - off, b - off);
}

proof fn lemma_double_tail(cs: Seq<Candle>, t: Seq<Candle>, off: int, i1: int, i2: int, tol: Dec)
    requires
        tail_of(cs, t, off),
        off <= i1 < cs.len(),
        off <= i2 < cs.len(),
    ensures
        double_top(cs, i1, i2, tol) == double_top(t, i1 - off, i2 - off, tol),
        double_bottom(cs, i1, i2, tol) == double_bottom(t, i1 - off, i2 - off, tol),
{
    lemma_tail_index(cs, t, off);
    assert(cs[i1] == t[i1 - off]);
    assert(cs[i2] == t[i2 - off]);
    lemma_fold_tail(cs, t, off, imin(i1, i2), imax(i1, i2));
    assert(imin(i1, i2) - off == imin(i1 - off, i2 - off));
    assert(imax(i1, i2) - off == imax(i1 - off, i2 - off));
}

proof fn lemma_chart_tail(cs: Seq<Candle>, t: Seq<Candle>, off: int, p: PMap)
    requires
        tail_of(cs, t, off),
        t.len() == 20,
    ensures
        spec_chart(cs, p) == spec_chart(t, p),
{
    lemma_tail_index(cs, t, off);
    let n = cs.len() as int;
    assert(off == n - 20);
    lemma_atr_tail(cs, t, off);
    lemma_picks_tail(cs, t, off, n);
    let h1 = top_of(cs, off, n, n);
    let l1 = bottom_of(cs, off, n, n);
    lemma_picks_tail(cs, t, off, h1);
    lemma_picks_tail(cs, t, off, l1);
    let h2 = top_of(cs, off, n, h1);
    let l2 = bottom_of(cs, off, n, l1);
    assert(top_of(t, 0, 20, 20) == h1 - off);
    assert(bottom_of(t, 0, 20, 20) == l1 - off);
    assert(top_of(t, 0, 20, h1 - off) == h2 - off);
    assert(bottom_of(t, 0, 20, l1 - off) == l2 - off);
    assert forall|tol: Dec| true implies double_top(cs, h1, h2, tol) == double_top(t, h1 - off, h2 - off, tol)
        && double_bottom(cs, l1, l2, tol) == double_bottom(t, l1 - off, l2 - off, tol) by {
        lemma_double_tail(cs, t, off, h1, h2, tol);
        lemma_double_tail(cs, t, off, l1, l2, tol);
    }
    lemma_fold_tail(cs, t, off, off, off + 5);
    lemma_fold_tail(cs, t, off, n - 5, n);
    lemma_fold_tail(cs, t, off, off, n - 1);
    assert(cs[n - 1] == t[19]);
}

proof fn lemma_run_window(cs: Seq<Candle>, t: Seq<Candle>, off: int, k: int)
    requires
        tail_of(cs, t, off),
        0 <= k <= t.len(),
    ensures
        all_bull(cs, cs.len() - k, cs.len() as int) == all_bull(t, t.len() - k, t.len() as int),
        all_bear(cs, cs.len() - k, cs.len() as int) == all_bear(t, t.len() - k, t.len() as int),
{
    lemma_tail_index(cs, t, off);
    let n = cs.len() as int;
    let m = t.len() as int;
    if all_bull(cs, n - k, n) {
        assert forall|i: int| m - k <= i < m implies lt((#[trigger] t[i]).open, t[i].close) by {
            assert(cs[i + off] == t[i]);
        }
    }
    if all_bull(t, m - k, m) {
        assert forall|i: int| n - k <= i < n implies lt((#[trigger] cs[i]).open, cs[i].close) by {
            assert(cs[i] == t[i - off]);
        }
    }
    if all_bear(cs, n - k, n) {
        assert forall|i: int| m - k <= i < m implies lt((#[trigger] t[i]).close, t[i].open) by {
            assert(cs[i + off] == t[i]);
        }
    }
    if all_bear(t, m - k, m) {
        assert forall|i: int| n - k <= i < n implies lt((#[trigger] cs[i]).close, cs[i].open) by {
            assert(cs[i] == t[i - off]);
        }
    }
}

proof fn lemma_runs_tail(cs: Seq<Candle>, t: Seq<Candle>, off: int, p: PMap)
    requires
        tail_of(cs, t, off),
        t.len() >= 5,
    ensures
        spec_runs(cs, p) == spec_runs(t, p),
{
    lemma_run_window(cs, t, off, 4);
    lemma_run_window(cs, t, off, 5);
    lemma_span_window(cs, t, off);
}

proof fn lemma_span_window(cs: Seq<Candle>, t: Seq<Candle>, off: int)
    requires
        tail_of(cs, t, off),
        t.len() >= 5,
    ensures
        spans_ok(cs) == spans_ok(t),
        narrowing(cs) == narrowing(t),
        expanding(cs) == expanding(t),
{
    lemma_tail_index(cs, t, off);
    let n = cs.len() as int;
    let m = t.len() as int;
    if spans_ok(cs) {
        assert forall|i: int| m - 5 <= i < m implies (#[trigger] span(t[i])) is Some by {
            assert(cs[i + off] == t[i]);
        }
    }
    if spans_ok(t) {
        assert forall|i: int| n - 5 <= i < n implies (#[trigger] span(cs[i])) is Some by {
            assert(cs[i] == t[i - off]);
        }
    }
    if narrowing(cs) {
        assert forall|i: int| m - 4 <= i < m implies lt(span(#[trigger] t[i]).unwrap(), span(t[i - 1]).unwrap()) by {
            assert(cs[i + off] == t[i]);
            assert(cs[i + off - 1] == t[i - 1]);
        }
    }
    if narrowing(t) {
        assert forall|i: int| n - 4 <= i < n implies lt(span(#[trigger] cs[i]).unwrap(), span(cs[i - 1]).unwrap()) by {
            assert(cs[i] == t[i - off]);
            assert(cs[i - 1] == t[i - 1 - off]);
        }
    }
    if expanding(cs) {
        assert forall|i: int| m - 4 <= i < m implies lt(span(t[i - 1]).unwrap(), span(#[trigger] t[i]).unwrap()) by {
            assert(cs[i + off] == t[i]);
            assert(cs[i + off - 1] == t[i - 1]);
        }
    }
    if expanding(t) {
        assert forall|i: int| n - 4 <= i < n implies lt(span(cs[i - 1]).unwrap(), span(#[trigger] cs[i]).unwrap()) by {
            assert(cs[i] == t[i - off]);
            assert(cs[i - 1] == t[i - 1 - off]);
        }
    }
}

/// The patterns of at least twenty candles are those of the last twenty.
pub proof fn lemma_patterns_tail(cs: Seq<Candle>)
    requires
        cs.len() >= 20,
    ensures
        spec_patterns(cs) == spec_patterns(cs.subrange(cs.len() - 20, cs.len() as int)),
{
    let n = cs.len() as int;
    let off = n - 20;
    let t = cs.subrange(off, n);
    assert(tail_of(cs, t, off));
    lemma_tail_index(cs, t, off);
    lemma_atr_tail(cs, t, off);
    assert(cs[n - 1] == t[19]);
    assert(cs[n - 2] == t[18]);
    assert(cs[n - 3] == t[17]);
    assert(spec_shape(cs) == spec_shape(t));
    assert forall|s: Shape, q: PMap| true implies spec_two(cs, s, q) == spec_two(t, s, q)
        && spec_three(cs, s, q) == spec_three(t, s, q) by {}
    assert forall|q: PMap| true implies spec_runs(cs, q) == spec_runs(t, q) && spec_chart(cs, q) == spec_chart(t, q) by {
        lemma_runs_tail(cs, t, off, q);
        lemma_chart_tail(cs, t, off, q);
    }
}

} // verus!
