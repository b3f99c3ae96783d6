//! The next-candle analysis of a symbol, from candles to a prediction.
use crate::ai::candle::{
    atr_or, market_session, predict_next_candle, spec_levels, spec_predict, spec_session,
    spec_summarize, summarize_candle, sview, trade_levels, CandleSummary, SummaryV,
};
use crate::ai::evidence::{
    append_f, decide, fviews, indicator_factors, indicator_factors_of, note_factors,
    note_factors_upto, notes_wf, pattern_factors, pattern_factors_of, spec_decide, weigh,
    weight_sum, weights_wf, FactorV, SignalFactor,
};
use crate::ai::report::{build_reasoning, build_scientific_basis, spec_basis, spec_reasoning};
use crate::decimal::{spec_zero, Dec};
use crate::domain::{candles_wf, overflow, overflow_err, AppError, AssetClass, Candle, ErrorKind, Rule, Strategy};
use crate::rules::compute::{band_count, compute_ok, computed};
use crate::rules::indicators::Indicators;
use crate::rules::series::decs_wf;
use vstd::prelude::*;

verus! {

/// A request to analyse a symbol on a timeframe.
#[derive(Clone, Debug)]
pub struct AnalyzeRequest {
    pub symbol: String,
    pub timeframe_minutes: u32,
    pub asset_class: Option<AssetClass>,
}

/// A request to trade on an analysis.
#[derive(Clone, Debug)]
pub struct TradeRequest {
    pub symbol: String,
    pub direction: String,
    pub timeframe_minutes: u32,
    pub stake: Option<Dec>,
    pub asset_class: Option<AssetClass>,
}

/// The timeframe a request gets when none is given: 5 minutes.
pub fn default_tf() -> (r: u32)
    ensures
        r == 5,
{
    5
}

/// The prediction for the next candle; times are Unix seconds.
#[derive(Clone, Debug)]
pub struct Prediction {
    /// "buy", "sell" or "hold".
    pub direction: String,
    /// 0 to 1.
    pub confidence: Dec,
    pub entry_price: Dec,
    pub stop_loss: Dec,
    pub take_profit: Dec,
    pub expiry: i64,
    pub reasoning: String,
    pub signals: Vec<SignalFactor>,
    pub timeframe_secs: u32,
    pub symbol: String,
    pub analysis_time_utc: i64,
    pub current_time_utc: i64,
    pub market_session: String,
    pub scientific_basis: String,
    pub last_candle: CandleSummary,
    pub predicted_candle: CandleSummary,
}

/// Every factor, in the order gathered: patterns, indicators, then the
/// rules learned from notes.
pub open spec fn all_factors(ind: Indicators, symbol: Seq<char>, notes: Seq<(Strategy, Vec<Rule>)>) -> Seq<FactorV> {
    pattern_factors_of(ind.patterns@) + indicator_factors_of(ind) + note_factors_upto(
        notes,
        symbol,
        ind,
        notes.len() as int,
    )
}

/// Number of note factors.
pub open spec fn note_count(ind: Indicators, symbol: Seq<char>, notes: Seq<(Strategy, Vec<Rule>)>) -> nat {
    note_factors_upto(notes, symbol, ind, notes.len() as int).len()
}

/// Decision, confidence, levels, both candle summaries, reasoning and basis
/// of an analysis over computed indicators; `None` when a decimal
/// operation overflows.
pub open spec fn analysis_parts(
    symbol: Seq<char>,
    last: Candle,
    ind: Indicators,
    notes: Seq<(Strategy, Vec<Rule>)>,
    hour: u32,
    time_text: Seq<char>,
) -> Option<(Seq<char>, Dec, (Dec, Dec, Dec), SummaryV, SummaryV, Seq<char>, Seq<char>)> {
    let fs = all_factors(ind, symbol, notes);
    match (
        spec_summarize(last, ind.patterns@),
        weight_sum(fs, "bullish"@, fs.len() as int),
        weight_sum(fs, "bearish"@, fs.len() as int),
    ) {
        (Some(summary), Some(bull), Some(bear)) => match spec_decide(bull, bear) {
            Some((dir, conf)) => match (
                spec_predict(dir, atr_or(ind, spec_zero()), last.close),
                spec_levels(dir, ind, symbol),
            ) {
                (Some(pred), Some(lv)) => match (
                    spec_reasoning(
                        dir,
                        conf,
                        spec_session(hour),
                        note_count(ind, symbol, notes),
                        fs,
                        ind,
                        summary,
                        pred,
                        symbol,
                        time_text,
                    ),
                    spec_basis(ind, dir, conf),
                ) {
                    (Some(reason), Some(basis)) => Some((dir, conf, lv, summary, pred, reason, basis)),
                    _ => None,
                },
                _ => None,
            },
            None => None,
        },
        _ => None,
    }
}

/// `p` carries the parts of an analysis of `symbol` at `now` on a timeframe of `tf_secs`.
pub open spec fn prediction_is(
    p: Prediction,
    parts: (Seq<char>, Dec, (Dec, Dec, Dec), SummaryV, SummaryV, Seq<char>, Seq<char>),
    factors: Seq<FactorV>,
    symbol: Seq<char>,
    tf_secs: int,
    now: int,
    hour: u32,
) -> bool {
    &&& p.direction@ == parts.0
    &&& p.confidence == parts.1
    &&& p.entry_price == parts.2.0
    &&& p.stop_loss == parts.2.1
    &&& p.take_profit == parts.2.2
    &&& p.expiry == now + tf_secs
    &&& p.reasoning@ == parts.5
    &&& fviews(p.signals@) == factors
    &&& p.timeframe_secs == tf_secs
    &&& p.symbol@ == symbol
    &&& p.analysis_time_utc == now
    &&& p.current_time_utc == now
    &&& p.market_session@ == spec_session(hour)
    &&& p.scientific_basis@ == parts.6
    &&& sview(p.last_candle) == parts.3
    &&& sview(p.predicted_candle) == parts.4
}

/// The analysis over indicators already computed from the candles.
pub fn analyze_with(
    req: &AnalyzeRequest,
    last: &Candle,
    ind: &Indicators,
    notes: &[(Strategy, Vec<Rule>)],
    now: i64,
    hour: u32,
    time_text: &str,
) -> (r: Result<Prediction, AppError>)
    requires
        ind.wf(),
        last.wf(),
        notes_wf(notes@),
        req.timeframe_minutes * 60 <= u32::MAX,
        now + req.timeframe_minutes * 60 <= i64::MAX,
    ensures
        match r {
            Ok(p) => analysis_parts(req.symbol@, *last, *ind, notes@, hour, time_text@) matches Some(parts)
                && prediction_is(
                p,
                parts,
                all_factors(*ind, req.symbol@, notes@),
                req.symbol@,
                req.timeframe_minutes * 60,
                now as int,
                hour,
            ),
            Err(e) => analysis_parts(req.symbol@, *last, *ind, notes@, hour, time_text@) is None
                && e.view_err() == overflow_err(),
        },
{
    let symbol = req.symbol.as_str();
    let tf_secs = req.timeframe_minutes * 60;
    let last_summary = match summarize_candle(last, ind) {
        Some(s) => s,
        None => return Err(overflow()),
    };
    let mut factors = pattern_factors(ind);
    append_f(&mut factors, indicator_factors(ind));
    let learned = note_factors(symbol, notes, ind);
    let n_notes = learned.len();
    append_f(&mut factors, learned);
    let (bull, bear) = match weigh(&factors) {
        Some(w) => w,
        None => return Err(overflow()),
    };
    let (direction, confidence) = match decide(bull, bear) {
        Some(d) => d,
        None => return Err(overflow()),
    };
    let predicted = match predict_next_candle(direction.as_str(), ind, last) {
        Some(p) => p,
        None => return Err(overflow()),
    };
    let (entry, stop_loss, take_profit) = match trade_levels(direction.as_str(), ind, symbol) {
        Some(l) => l,
        None => return Err(overflow()),
    };
    let session = market_session(hour);
    let reasoning = match build_reasoning(
        direction.as_str(),
        confidence,
        session.as_str(),
        n_notes,
        &factors,
        ind,
        &last_summary,
        &predicted,
        symbol,
        time_text,
    ) {
        Some(t) => t,
        None => return Err(overflow()),
    };
    let basis = match build_scientific_basis(ind, direction.as_str(), confidence) {
        Some(t) => t,
        None => return Err(overflow()),
    };
    Ok(
        Prediction {
            direction,
            confidence,
            entry_price: entry,
            stop_loss,
            take_profit,
            expiry: now + tf_secs as i64,
            reasoning,
            signals: factors,
            timeframe_secs: tf_secs,
            symbol: req.symbol.clone(),
            analysis_time_utc: now,
            current_time_utc: now,
            market_session: session,
            scientific_basis: basis,
            last_candle: last_summary,
            predicted_candle: predicted,
        },
    )
}

/// Analyse a symbol: compute the indicators of its candles (at least 50),
/// weigh the evidence, decide, and write the prediction.  `stds` are the
/// Bollinger deviations of the candles, `notes` the enabled strategies with
/// their rules, `now` and `hour` the current time and UTC hour, and
/// `time_text` the current time as the report prints it.
pub fn analyze(
    req: &AnalyzeRequest,
    candles: &[Candle],
    stds: &[Dec],
    notes: &[(Strategy, Vec<Rule>)],
    now: i64,
    hour: u32,
    time_text: &str,
) -> (r: Result<Prediction, AppError>)
    requires
        candles_wf(candles@),
        candles@.len() <= u32::MAX,
        decs_wf(stds@),
        stds@.len() == band_count(candles@.len() as int),
        notes_wf(notes@),
        req.timeframe_minutes * 60 <= u32::MAX,
        now + req.timeframe_minutes * 60 <= i64::MAX,
    ensures
        candles@.len() < 50 ==> (r matches Err(e) && e.view_err() == (
            ErrorKind::Market,
            "not enough candle data for analysis"@,
        )),
        candles@.len() >= 50 && !compute_ok(candles@, stds@) ==> (r matches Err(e) && e.view_err()
            == overflow_err()),
        r matches Ok(p) ==> exists|ind: Indicators|
            #[trigger] computed(candles@, stds@, ind) && ind.wf() && (analysis_parts(
                req.symbol@,
                candles@[candles@.len() - 1],
                ind,
                notes@,
                hour,
                time_text@,
            ) matches Some(parts) && prediction_is(
                p,
                parts,
                all_factors(ind, req.symbol@, notes@),
                req.symbol@,
                req.timeframe_minutes * 60,
                now as int,
                hour,
            )),
        candles@.len() >= 50 && compute_ok(candles@, stds@) && r is Err ==> (r matches Err(e)
            && e.view_err() == overflow_err() && exists|ind: Indicators|
            #[trigger] computed(candles@, stds@, ind) && ind.wf() && analysis_parts(
                req.symbol@,
                candles@[candles@.len() - 1],
                ind,
                notes@,
                hour,
                time_text@,
            ) is None),
{
    if candles.len() < 50 {
        return Err(AppError::Market(String::from_str("not enough candle data for analysis")));
    }
    let ind = match Indicators::compute(candles, stds) {
        Ok(i) => i,
        Err(e) => return Err(e),
    };
    assert(candles@[candles@.len() - 1].wf());
    let last = &candles[candles.len() - 1];
    let r = analyze_with(req, last, &ind, notes, now, hour, time_text);
    assert(computed(candles@, stds@, ind));
    r
}

} // verus!
