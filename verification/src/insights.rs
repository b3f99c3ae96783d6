//! Account analytics and the notes drawn from them.
use crate::ai::report::{count_text, nat_text};
use crate::decimal::{
    abs, checked_mul, decimal_display_prec, decimal_mul, display_prec, less, lt, spec_int,
    spec_zero, whole, zero, Dec,
};
use crate::domain::Trade;
use crate::rules::series::spec_abs;
use vstd::prelude::*;

verus! {

/// Realised performance of an account.
#[derive(Clone, Debug)]
pub struct AnalyticsSummary {
    pub total_trades: i64,
    pub open_trades: i64,
    pub closed_trades: i64,
    /// Share of closed trades with a positive PnL, 0 to 1.
    pub win_rate: Dec,
    pub total_pnl: Dec,
}

/// Realised performance of one strategy.
#[derive(Clone, Debug)]
pub struct StrategyPerf {
    pub strategy_id: u128,
    pub name: String,
    pub closed_trades: i64,
    pub win_rate: Dec,
    pub total_pnl: Dec,
}

/// The analytics of an account, overall and per strategy.
#[derive(Clone, Debug)]
pub struct AnalyticsResp {
    pub summary: AnalyticsSummary,
    pub per_strategy: Vec<StrategyPerf>,
}

/// The analytics with notes a reader can act on.
#[derive(Clone, Debug)]
pub struct Insight {
    pub summary: AnalyticsSummary,
    pub recent_signals: usize,
    pub open_exposure: Dec,
    pub notes: Vec<String>,
}

/// The win-rate note: with 5 or more closed trades, a strong edge above
/// 55% or underperformance below 40% (the rate to one place).
pub open spec fn win_note(s: AnalyticsSummary) -> Option<Seq<Seq<char>>> {
    if s.closed_trades >= 5 {
        match decimal_mul(s.win_rate, spec_int(100)) {
            Some(wr) => Some(
                if lt(spec_int(55), wr) {
                    seq![
                        "Strong edge: "@ + decimal_display_prec(wr, 1) + "% win rate across "@ + nat_text(
                            s.closed_trades as nat,
                        ) + " trades."@,
                    ]
                } else if lt(wr, spec_int(40)) {
                    seq![
                        "Underperforming: "@ + decimal_display_prec(wr, 1)
                            + "% win rate. Consider disabling weak strategies."@,
                    ]
                } else {
                    Seq::empty()
                },
            ),
            None => None,
        }
    } else {
        Some(Seq::empty())
    }
}

/// The remaining notes: net loss, open exposure above the realised PnL,
/// signals without open trades; a reassurance when no note applies.
pub open spec fn other_notes(
    s: AnalyticsSummary,
    recent_signals: usize,
    open_exposure: Dec,
    before: Seq<Seq<char>>,
) -> Seq<Seq<char>> {
    let n1 = if lt(s.total_pnl, spec_zero()) {
        before.push("Net negative PnL — review stop-loss sizing and strategy risk_per_trade."@)
    } else {
        before
    };
    let n2 = if lt(spec_abs(s.total_pnl), open_exposure) && lt(spec_zero(), open_exposure) {
        n1.push("Significant open exposure relative to realized PnL; watch margin."@)
    } else {
        n1
    };
    let n3 = if recent_signals > 0 && s.open_trades == 0 {
        n2.push("Signals firing but no open trades — check trading mode (paper/signals/live)."@)
    } else {
        n2
    };
    if n3.len() == 0 {
        seq!["Performance looks balanced. Keep monitoring strategy decay."@]
    } else {
        n3
    }
}

pub open spec fn spec_notes(s: AnalyticsSummary, recent_signals: usize, open_exposure: Dec) -> Option<Seq<Seq<char>>> {
    match win_note(s) {
        Some(w) => Some(other_notes(s, recent_signals, open_exposure, w)),
        None => None,
    }
}

fn push_note(notes: &mut Vec<String>, t: String)
    ensures
        final(notes)@.map_values(|x: String| x@) == old(notes)@.map_values(|x: String| x@).push(t@),
{
    notes.push(t);
    assert(final(notes)@.map_values(|x: String| x@) =~= old(notes)@.map_values(|x: String| x@).push(t@));
}

/// Build human-readable insights atop the analytics summary.
pub fn build(summary: AnalyticsSummary, recent_signals: usize, open_exposure: Dec) -> (r: Option<Insight>)
    requires
        summary.win_rate.wf(),
        summary.total_pnl.wf(),
        open_exposure.wf(),
    ensures
        r is None <==> spec_notes(summary, recent_signals, open_exposure) is None,
        r matches Some(i) ==> Some(i.notes@.map_values(|x: String| x@)) == spec_notes(
            summary,
            recent_signals,
            open_exposure,
        ) && i.summary == summary && i.recent_signals == recent_signals && i.open_exposure
            == open_exposure,
{
    let mut notes: Vec<String> = Vec::new();
    if summary.closed_trades >= 5 {
        let wr = match checked_mul(summary.win_rate, whole(100)) {
            Some(w) => w,
            None => return None,
        };
        if less(whole(55), wr) {
            let mut t = String::from_str("Strong edge: ");
            t.append(display_prec(wr, 1).as_str());
            t.append("% win rate across ");
            t.append(count_text(summary.closed_trades as u64).as_str());
            t.append(" trades.");
            let ghost tv = t@;
            push_note(&mut notes, t);
            assert(notes@.map_values(|x: String| x@) =~= seq![tv]);
        } else if less(wr, whole(40)) {
            let mut t = String::from_str("Underperforming: ");
            t.append(display_prec(wr, 1).as_str());
            t.append("% win rate. Consider disabling weak strategies.");
            let ghost tv = t@;
            push_note(&mut notes, t);
            assert(notes@.map_values(|x: String| x@) =~= seq![tv]);
        }
    }
    if notes.len() == 0 {
        assert(notes@.map_values(|x: String| x@) =~= Seq::<Seq<char>>::empty());
    }
    assert(Some(notes@.map_values(|x: String| x@)) == win_note(summary));
    if less(summary.total_pnl, zero()) {
        push_note(&mut notes, String::from_str("Net negative PnL — review stop-loss sizing and strategy risk_per_trade."));
    }
    if less(abs(summary.total_pnl), open_exposure) && less(zero(), open_exposure) {
        push_note(&mut notes, String::from_str("Significant open exposure relative to realized PnL; watch margin."));
    }
    if recent_signals > 0 && summary.open_trades == 0 {
        push_note(&mut notes, String::from_str("Signals firing but no open trades — check trading mode (paper/signals/live)."));
    }
    if notes.len() == 0 {
        push_note(&mut notes, String::from_str("Performance looks balanced. Keep monitoring strategy decay."));
    }
    Some(Insight { summary, recent_signals, open_exposure, notes })
}

/// Notional of the first `k` open trades of an account: size times entry,
/// added in order.
pub open spec fn exposure_upto(trades: Seq<Trade>, account: u128, k: int) -> Option<Dec>
    decreases k,
{
    if k <= 0 {
        Some(spec_zero())
    } else {
        match exposure_upto(trades, account, k - 1) {
            Some(acc) => if trades[k - 1].account_id == account {
                match decimal_mul(trades[k - 1].size, trades[k - 1].entry_price) {
                    Some(x) => crate::decimal::decimal_add(acc, x),
                    None => None,
                }
            } else {
                Some(acc)
            },
            None => None,
        }
    }
}

/// The open exposure of an account over its open trades.
pub fn open_exposure(trades: &[Trade], account: u128) -> (r: Option<Dec>)
    requires
        forall|i: int| 0 <= i < trades@.len() ==> (#[trigger] trades@[i]).size.wf() && trades@[i].entry_price.wf(),
    ensures
        r == exposure_upto(trades@, account, trades@.len() as int),
        r matches Some(x) ==> x.wf(),
{
    let mut acc = zero();
    let mut i: usize = 0;
    while i < trades.len()
        invariant
            i <= trades@.len(),
            forall|j: int| 0 <= j < trades@.len() ==> (#[trigger] trades@[j]).size.wf() && trades@[j].entry_price.wf(),
            Some(acc) == exposure_upto(trades@, account, i as int),
            acc.wf(),
        decreases trades@.len() - i,
    {
        let t = &trades[i];
        if t.account_id == account {
            let x = match checked_mul(t.size, t.entry_price) {
                Some(x) => x,
                None => {
                    proof {
                        lemma_exposure_none(trades@, account, i + 1, trades@.len() as int);
                    }
                    return None;
                },
            };
            match crate::decimal::checked_add(acc, x) {
                Some(a) => acc = a,
                None => {
                    proof {
                        lemma_exposure_none(trades@, account, i + 1, trades@.len() as int);
                    }
                    return None;
                },
            }
        }
        i += 1;
    }
    Some(acc)
}

proof fn lemma_exposure_none(trades: Seq<Trade>, account: u128, j: int, k: int)
    requires
        0 <= j <= k,
        exposure_upto(trades, account, j) is None,
    ensures
        exposure_upto(trades, account, k) is None,
    decreases k - j,
{
    if j < k {
        lemma_exposure_none(trades, account, j, k - 1);
    }
}

} // verus!
