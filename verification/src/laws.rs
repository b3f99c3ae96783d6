//! Properties the library keeps across its functions and all their inputs.
use crate::ai::candle::spec_levels;
use crate::ai::evidence::spec_decide;
use crate::api::{spec_account_mode, spec_manual_route, ManualRoute};
use crate::decimal::{decimal_div, same, decimal_add, decimal_mul, decimal_round_dp, decimal_sub, spec_int, spec_max, dn, is_zero, le, lemma_pow10_positive, lt, pow10, spec_one, spec_zero, Dec, MAX_SCALE};
use crate::domain::{
    spec_mode_name, spec_parse_mode, AssetClass, Candle, Quote, Side, Signal, Trade, TradeStatus,
    TradingMode,
};
use crate::execution::{
    exact_pnl_units, pnl_is_exact, pnl_move, spec_open_trade, spec_offset, spec_position_size, spec_route, spec_should_exit, spec_stake,
    Route,
};
use crate::insights::{spec_notes, AnalyticsSummary};
use crate::market::{alnum_of, oanda_splittable, spec_oanda_instrument, splits_at, utf8_len};
use crate::learning::{learned, room_for, score_of};
use crate::rules::chart::{lemma_patterns_tail, spec_patterns};
use crate::rules::compute::{trailing_bear, trailing_bull};
use crate::rules::eval::spec_resolve;
use crate::rules::series::{div_round, gains_losses, spec_abs, spec_rsi};
use crate::rules::lexer::ErrV;
use crate::rules::indicators::Indicators;
use crate::rules::patterns::{spec_shape, st_engulf, PMap, Shape};
use crate::text::{ascii_lower, ascii_lower_seq, char_is_alphanumeric, is_ascii};
use vstd::prelude::*;

verus! {

/// An account in signals mode never opens a trade, whatever the signal,
/// quote, levels, balance or risk.
pub proof fn law_signals_mode_never_trades(
    signal: Signal,
    quote: Option<Quote>,
    stop: Option<Dec>,
    take_profit: Option<Dec>,
    balance: Dec,
    risk: Dec,
    id: u128,
    now: i64,
)
    requires
        signal.mode == TradingMode::Signals,
    ensures
        spec_open_trade(signal, quote, stop, take_profit, balance, risk, id, now) == Ok::<
            Option<Trade>,
            (crate::domain::ErrorKind, Seq<char>),
        >(None),
{
}

/// A paper signal whose size can be computed opens an open paper trade at
/// the quote's fill (or the signal price without a quote), with the
/// signal's stops.
pub proof fn law_paper_opens_trade(
    signal: Signal,
    quote: Option<Quote>,
    stop: Option<Dec>,
    take_profit: Option<Dec>,
    balance: Dec,
    risk: Dec,
    id: u128,
    now: i64,
)
    requires
        signal.mode == TradingMode::Paper,
        spec_position_size(
            balance,
            risk,
            match quote {
                Some(q) => crate::execution::spec_fill(q, signal.side),
                None => signal.price,
            },
            stop,
        ) is Some,
    ensures
        spec_open_trade(signal, quote, stop, take_profit, balance, risk, id, now) matches Ok(Some(t))
            && t.mode == TradingMode::Paper && t.status == TradeStatus::Open && t.stop_loss == stop
            && t.take_profit == take_profit && t.signal_id == Some(signal.id) && t.entry_price == match quote {
            Some(q) => crate::execution::spec_fill(q, signal.side),
            None => signal.price,
        },
{
}

/// Only a live account with a broker sends orders to the broker; every
/// other signal gets a simulated fill.
pub proof fn law_only_live_reaches_broker(mode: TradingMode, has_broker: bool, balance: Dec, risk: Dec)
    ensures
        (mode != TradingMode::Live || !has_broker) ==> spec_route(mode, has_broker, balance, risk)
            == Some(Route::Simulated),
        spec_route(mode, has_broker, balance, risk) matches Some(Route::Live { .. }) ==> mode
            == TradingMode::Live && has_broker,
{
}

/// A new account is in paper mode unless a mode is asked for, either by
/// the request or by the configured default.
pub proof fn law_paper_by_default(requested: Option<Seq<char>>, default_mode: Seq<char>)
    requires
        requested matches Some(r) ==> spec_parse_mode(r) is None,
        spec_parse_mode(default_mode) is None,
    ensures
        spec_account_mode(requested, default_mode) == TradingMode::Paper,
{
}

proof fn lemma_lower_literal(s: Seq<char>)
    requires
        forall|i: int| 0 <= i < s.len() ==> !('A' <= #[trigger] s[i] && s[i] <= 'Z'),
    ensures
        ascii_lower_seq(s) == s,
{
    assert(ascii_lower_seq(s) =~= s);
}

/// A mode's name reads back as the mode.
pub proof fn law_mode_name_round_trip(m: TradingMode)
    ensures
        spec_parse_mode(spec_mode_name(m)) == Some(m),
{
    reveal_strlit("paper");
    reveal_strlit("signals");
    reveal_strlit("live");
    lemma_lower_literal("paper"@);
    lemma_lower_literal("signals"@);
    lemma_lower_literal("live"@);
}

/// Mode names are read without regard to ASCII case.
pub proof fn law_mode_ignores_case(s: Seq<char>)
    ensures
        spec_parse_mode(ascii_lower_seq(s)) == spec_parse_mode(s),
{
    assert(ascii_lower_seq(ascii_lower_seq(s)) =~= ascii_lower_seq(s)) by {
        assert forall|i: int| 0 <= i < s.len() implies ascii_lower(ascii_lower(#[trigger] s[i]))
            == ascii_lower(s[i]) by {
            let c = s[i];
            if 'A' <= c && c <= 'Z' {
                assert((c as u32) + 32 >= 'a' as u32);
            }
        }
    }
}

/// A trade exits exactly when the price reaches its stop or its target
/// (a buy is marked at the bid, a sale at the ask), and a stop reached
/// wins over a target reached.
pub proof fn law_exit_when_level_reached(t: Trade, q: Quote)
    ensures
        ({
            let price = match t.side {
                Side::Buy => q.bid,
                Side::Sell => q.ask,
            };
            let stop_hit = match t.stop_loss {
                Some(sl) => match t.side {
                    Side::Buy => le(price, sl),
                    Side::Sell => le(sl, price),
                },
                None => false,
            };
            let tp_hit = match t.take_profit {
                Some(tp) => match t.side {
                    Side::Buy => le(tp, price),
                    Side::Sell => le(price, tp),
                },
                None => false,
            };
            &&& spec_should_exit(t, q).1 == (stop_hit || tp_hit)
            &&& spec_should_exit(t, q).2 == price
            &&& stop_hit ==> spec_should_exit(t, q).0 == "stop"@
        }),
{
}

/// A take-profit for one side lies where the stop of the other side does,
/// the same distance from the entry.
pub proof fn law_offsets_mirror(entry: Dec, pips: Dec, class: AssetClass)
    ensures
        spec_offset(entry, Side::Buy, pips, class, true) == spec_offset(entry, Side::Sell, pips, class, false),
        spec_offset(entry, Side::Buy, pips, class, false) == spec_offset(entry, Side::Sell, pips, class, true),
{
}

/// A live stake is never below the 0.35 minimum.
pub proof fn law_minimum_stake(balance: Dec, risk: Dec)
    ensures
        spec_stake(balance, risk) matches Some(s) ==> le(dn(35, 2), s),
{
}

/// A buy needs more bullish than bearish weight, a sale no more; without
/// any weight the decision is to hold with no confidence.
pub proof fn law_decision_follows_weight(bull: Dec, bear: Dec)
    ensures
        spec_decide(bull, bear) matches Some((d, _)) && d == "buy"@ ==> lt(bear, bull),
        spec_decide(bull, bear) matches Some((d, _)) && d == "sell"@ ==> !lt(bear, bull),
        decimal_add(bull, bear) matches Some(t) && is_zero(t) ==> spec_decide(bull, bear) == Some(
            ("hold"@, spec_zero()),
        ),
{
    reveal_strlit("buy");
    reveal_strlit("sell");
    reveal_strlit("hold");
    assert("hold"@.len() == 4 && "buy"@.len() == 3 && "sell"@.len() == 4);
    assert("hold"@[0] == 'h' && "sell"@[0] == 's');
}

/// Learning only adds: every score already kept is kept, with no fewer
/// wins and no fewer losses.
pub proof fn law_scores_only_grow(old: Map<Seq<char>, (u32, u32)>, trades: Seq<Trade>, i: int)
    requires
        0 <= i <= trades.len(),
        trades.len() <= u32::MAX,
        room_for(old, trades.len() as int),
    ensures
        forall|k: Seq<char>|
            #[trigger] old.contains_key(k) ==> learned(old, trades, i).contains_key(k) && learned(
                old,
                trades,
                i,
            )[k].0 >= old[k].0 && learned(old, trades, i)[k].1 >= old[k].1,
{
    lemma_scores_bounded(old, trades, i);
    assert forall|k: Seq<char>| #[trigger] old.contains_key(k) implies learned(old, trades, i).contains_key(k) by {
        lemma_keys_kept(old, trades, i, k);
    }
}

proof fn lemma_keys_kept(old: Map<Seq<char>, (u32, u32)>, trades: Seq<Trade>, i: int, k: Seq<char>)
    requires
        0 <= i <= trades.len(),
        old.contains_key(k),
    ensures
        learned(old, trades, i).contains_key(k),
    decreases i,
{
    if i > 0 {
        lemma_keys_kept(old, trades, i - 1, k);
    }
}

/// Within the scores after `i` trades, each count lies between its start
/// and its start plus `i`.
pub open spec fn bounded(old: Map<Seq<char>, (u32, u32)>, m: Map<Seq<char>, (u32, u32)>, i: int) -> bool {
    forall|k: Seq<char>|
        #[trigger] m.contains_key(k) ==> m[k].0 <= score_of(old, k).0 + i && m[k].1 <= score_of(
            old,
            k,
        ).1 + i && m[k].0 >= score_of(old, k).0 && m[k].1 >= score_of(old, k).1
}

proof fn lemma_bump_bounded(
    old: Map<Seq<char>, (u32, u32)>,
    m: Map<Seq<char>, (u32, u32)>,
    key: Seq<char>,
    win: bool,
    i: int,
    n: int,
)
    requires
        bounded(old, m, i - 1),
        !m.contains_key(key) || (m[key].0 <= score_of(old, key).0 + i - 1 && m[key].1 <= score_of(old, key).1 + i - 1),
        1 <= i <= n <= u32::MAX,
        room_for(old, n),
        old.contains_key(key) ==> m.contains_key(key),
    ensures
        bounded(old, crate::learning::bump(m, key, win), i),
{
    let b = crate::learning::bump(m, key, win);
    assert forall|k: Seq<char>| #[trigger] b.contains_key(k) implies b[k].0 <= score_of(old, k).0 + i
        && b[k].1 <= score_of(old, k).1 + i && b[k].0 >= score_of(old, k).0 && b[k].1 >= score_of(old, k).1 by {
        if k == key {
            if old.contains_key(k) {
                assert(old[k].0 + n <= u32::MAX);
                assert(old[k].1 + n <= u32::MAX);
            }
        }
    }
}

proof fn lemma_scores_bounded(old: Map<Seq<char>, (u32, u32)>, trades: Seq<Trade>, i: int)
    requires
        0 <= i <= trades.len(),
        trades.len() <= u32::MAX,
        room_for(old, trades.len() as int),
    ensures
        bounded(old, learned(old, trades, i), i),
    decreases i,
{
    if i > 0 {
        lemma_scores_bounded(old, trades, i - 1);
        let prev = learned(old, trades, i - 1);
        let t = trades[i - 1];
        assert forall|k: Seq<char>| old.contains_key(k) implies #[trigger] prev.contains_key(k) by {
            lemma_keys_kept(old, trades, i - 1, k);
        }
        if t.status == TradeStatus::Closed {
            let k1 = crate::learning::side_key(t.symbol@, t.side);
            let k2 = crate::learning::all_key(t.symbol@);
            crate::learning::lemma_keys_differ(t.symbol@, t.symbol@, t.side);
            let w = crate::learning::won(t);
            lemma_bump_bounded(old, prev, k1, w, i, trades.len() as int);
            let m1 = crate::learning::bump(prev, k1, w);
            assert forall|k: Seq<char>| #[trigger] m1.contains_key(k) && k != k1 implies m1[k].0 <= score_of(old, k).0 + i - 1
                && m1[k].1 <= score_of(old, k).1 + i - 1 by {
                assert(m1[k] == prev[k]);
            }
            assert(old.contains_key(k2) ==> m1.contains_key(k2));
            lemma_bump_bounded2(old, m1, k2, w, i, trades.len() as int, k1);
        } else {
            assert forall|k: Seq<char>| #[trigger] prev.contains_key(k) implies prev[k].0 <= score_of(old, k).0 + i by {}
        }
    }
}

proof fn lemma_bump_bounded2(
    old: Map<Seq<char>, (u32, u32)>,
    m: Map<Seq<char>, (u32, u32)>,
    key: Seq<char>,
    win: bool,
    i: int,
    n: int,
    other: Seq<char>,
)
    requires
        bounded(old, m, i),
        key != other,
        forall|k: Seq<char>| #[trigger] m.contains_key(k) && k != other ==> m[k].0 <= score_of(old, k).0 + i - 1
            && m[k].1 <= score_of(old, k).1 + i - 1,
        1 <= i <= n <= u32::MAX,
        room_for(old, n),
        old.contains_key(key) ==> m.contains_key(key),
    ensures
        bounded(old, crate::learning::bump(m, key, win), i),
{
    let b = crate::learning::bump(m, key, win);
    assert forall|k: Seq<char>| #[trigger] b.contains_key(k) implies b[k].0 <= score_of(old, k).0 + i
        && b[k].1 <= score_of(old, k).1 + i && b[k].0 >= score_of(old, k).0 && b[k].1 >= score_of(old, k).1 by {
        if k == key {
            if old.contains_key(k) {
                assert(old[k].0 + n <= u32::MAX);
                assert(old[k].1 + n <= u32::MAX);
            }
            if m.contains_key(k) {
                assert(m[k].0 <= score_of(old, k).0 + i - 1);
            }
        }
    }
}

/// Insights always say something.
pub proof fn law_insights_never_empty(s: AnalyticsSummary, recent_signals: usize, open_exposure: Dec)
    ensures
        spec_notes(s, recent_signals, open_exposure) matches Some(ns) ==> ns.len() >= 1,
{
}

/// The last candles cannot be a bullish run and a bearish run at once.
pub proof fn law_runs_exclusive(cs: Seq<Candle>, n: int)
    requires
        n > 0,
    ensures
        trailing_bull(cs, n) == 0 || trailing_bear(cs, n) == 0,
{
    assert(!(lt(cs[n - 1].open, cs[n - 1].close) && lt(cs[n - 1].close, cs[n - 1].open)));
}

/// No candles show no pattern; a latest candle without range shows only a doji.
pub proof fn law_pattern_edges(cs: Seq<Candle>)
    ensures
        cs.len() == 0 ==> spec_patterns(cs) == Some(Map::<Seq<char>, Dec>::empty()),
        cs.len() > 0 ==> (spec_shape(cs) matches Some(s) && is_zero(s.range) ==> spec_patterns(cs)
            == Some(Map::<Seq<char>, Dec>::empty().insert("doji"@, spec_one()))),
{
}


/// All characters of a text are ASCII.
pub open spec fn all_ascii(s: Seq<char>) -> bool {
    forall|i: int| 0 <= i < s.len() ==> is_ascii(#[trigger] s[i])
}

proof fn lemma_alnum_kept(s: Seq<char>)
    requires
        all_ascii(s),
    ensures
        all_ascii(alnum_of(s)),
        forall|i: int| 0 <= i < alnum_of(s).len() ==> char_is_alphanumeric(#[trigger] alnum_of(s)[i]),
    decreases s.len(),
{
    if s.len() > 0 {
        lemma_alnum_kept(s.drop_last());
    }
}

proof fn lemma_alnum_fixed(t: Seq<char>)
    requires
        forall|i: int| 0 <= i < t.len() ==> char_is_alphanumeric(#[trigger] t[i]),
    ensures
        alnum_of(t) == t,
    decreases t.len(),
{
    if t.len() > 0 {
        lemma_alnum_fixed(t.drop_last());
        assert(t.drop_last().push(t.last()) =~= t);
    }
}

proof fn lemma_alnum_append(a: Seq<char>, b: Seq<char>)
    ensures
        alnum_of(a + b) == alnum_of(a) + alnum_of(b),
    decreases b.len(),
{
    if b.len() == 0 {
        assert(a + b =~= a);
        assert(alnum_of(a) + alnum_of(b) =~= alnum_of(a));
    } else {
        lemma_alnum_append(a, b.drop_last());
        assert((a + b).drop_last() =~= a + b.drop_last());
        assert((a + b).last() == b.last());
        if char_is_alphanumeric(b.last()) {
            assert(alnum_of(a) + alnum_of(b.drop_last()).push(b.last())
                =~= (alnum_of(a) + alnum_of(b.drop_last())).push(b.last()));
        }
    }
}

proof fn lemma_ascii_len(s: Seq<char>)
    requires
        all_ascii(s),
    ensures
        utf8_len(s) == s.len(),
    decreases s.len(),
{
    if s.len() > 0 {
        lemma_ascii_len(s.drop_last());
    }
}

/// The instrument of an ASCII symbol, as the alphanumeric characters and
/// where the underscore goes.
proof fn lemma_ascii_instrument(symbol: Seq<char>)
    requires
        all_ascii(symbol),
    ensures
        oanda_splittable(symbol),
        alnum_of(symbol).len() == 6 ==> spec_oanda_instrument(symbol) == alnum_of(symbol).take(3)
            + seq!['_'] + alnum_of(symbol).skip(3),
        alnum_of(symbol).len() != 6 ==> spec_oanda_instrument(symbol) == alnum_of(symbol),
{
    let f = alnum_of(symbol);
    lemma_alnum_kept(symbol);
    lemma_ascii_len(f);
    if f.len() == 6 {
        assert(all_ascii(f.take(3)));
        lemma_ascii_len(f.take(3));
        assert(splits_at(f, 3));
        let k = choose|k: int| splits_at(f, k);
        assert(splits_at(f, k));
        lemma_ascii_len(f.take(k));
    }
}

/// Turning an ASCII symbol into an OANDA instrument twice gives what turning
/// it once does ("EUR/USD" gives "EUR_USD" both times), and neither call
/// meets an unsplittable name.
pub proof fn law_instrument_idempotent(symbol: Seq<char>)
    requires
        all_ascii(symbol),
    ensures
        oanda_splittable(symbol),
        oanda_splittable(spec_oanda_instrument(symbol)),
        spec_oanda_instrument(spec_oanda_instrument(symbol)) == spec_oanda_instrument(symbol),
{
    let f = alnum_of(symbol);
    lemma_ascii_instrument(symbol);
    lemma_alnum_kept(symbol);
    lemma_alnum_fixed(f);
    let g = spec_oanda_instrument(symbol);
    if f.len() == 6 {
        let under = seq!['_'];
        assert(g == f.take(3) + under + f.skip(3));
        assert(all_ascii(g));
        lemma_alnum_append(f.take(3) + under, f.skip(3));
        lemma_alnum_append(f.take(3), under);
        lemma_alnum_fixed(f.take(3));
        lemma_alnum_fixed(f.skip(3));
        assert(under.drop_last() =~= Seq::<char>::empty());
        assert(under.last() == '_');
        assert(alnum_of(under.drop_last()) =~= Seq::<char>::empty());
        if char_is_alphanumeric('_') {
            assert(alnum_of(under) =~= under);
            assert(alnum_of(g) == g);
            assert(g.len() == 7);
        } else {
            assert(alnum_of(under) =~= Seq::<char>::empty());
            assert(f.take(3) + Seq::<char>::empty() + f.skip(3) =~= f);
            assert(alnum_of(g) == f);
        }
        lemma_ascii_instrument(g);
    } else {
        assert(g == f);
        assert(all_ascii(g));
        lemma_ascii_instrument(g);
    }
}

/// The patterns of twenty candles or more depend only on the last twenty.
pub proof fn law_patterns_last_twenty(cs: Seq<Candle>)
    requires
        cs.len() >= 20,
    ensures
        spec_patterns(cs) == spec_patterns(cs.subrange(cs.len() - 20, cs.len() as int)),
{
    lemma_patterns_tail(cs);
}

/// Where `compute_pnl` rounds nothing (see `pnl_is_exact`): closing at the
/// entry makes nothing, the two sides of the same trade make opposite PnL,
/// and a buy of positive size gains exactly when the exit is above the entry.
/// (That the two sides give opposite PnL with rounding too is an `ensures`
/// of `compute_pnl` itself.)
pub proof fn law_pnl_sides(t: Trade, t2: Trade, exit: Dec)
    requires
        t2.side != t.side,
        t2.entry_price == t.entry_price,
        t2.size == t.size,
    ensures
        pnl_is_exact(t2, exit) == pnl_is_exact(t, exit),
        exact_pnl_units(t2, exit) == -exact_pnl_units(t, exit),
        exact_pnl_units(t, t.entry_price) == 0,
        t.side == Side::Buy && t.size.mantissa > 0 && exit.scale + t.size.scale <= MAX_SCALE ==> (
            exact_pnl_units(t, exit) > 0 <==> exit.mantissa > t.entry_price.mantissa),
{
    let p = pow10((MAX_SCALE - exit.scale - t.size.scale) as nat);
    let m = pnl_move(t, exit);
    let sm = t.size.mantissa;
    assert(pnl_move(t2, exit) == -m);
    assert((-m * sm) * p == -((m * sm) * p)) by (nonlinear_arith);
    assert(-m * sm == -(m * sm)) by (nonlinear_arith);
    let p0 = pow10((MAX_SCALE - t.entry_price.scale - t.size.scale) as nat);
    assert(pnl_move(t, t.entry_price) == 0);
    assert((0 * sm) * p0 == 0) by (nonlinear_arith);
    if t.side == Side::Buy && sm > 0 && exit.scale + t.size.scale <= MAX_SCALE {
        lemma_pow10_positive((MAX_SCALE - exit.scale - t.size.scale) as nat);
        assert(((m * sm) * p > 0) <==> m > 0) by (nonlinear_arith)
            requires
                sm > 0,
                p > 0,
        ;
    }
}

/// A manual trade request on a signals account only records the signal:
/// no trade is opened and no order reaches a broker, with or without one.
pub proof fn law_manual_signals_mode_records_only(has_broker: bool)
    ensures
        spec_manual_route(TradingMode::Signals, has_broker) == ManualRoute::SignalOnly,
        spec_manual_route(TradingMode::Paper, has_broker) == ManualRoute::Simulated,
{
}

/// Engulfing: the latest candle `c` is marked bearish engulfing (flag 1, else
/// 0) exactly when the previous candle `v` rose, `c` fell, and `c`'s body
/// covers `v`'s: `c` opened at or above `v`'s close and closed at or below
/// `v`'s open; bullish engulfing is the mirror image. A strength is recorded
/// only for a marked pattern.
pub proof fn law_engulfing(s: Shape, c: Candle, v: Candle, prev_body: Dec, p: PMap)
    requires
        s.o == c.open,
        s.cl == c.close,
        !p.contains_key("bullish_engulfing_strength"@),
        !p.contains_key("bearish_engulfing_strength"@),
    ensures
        st_engulf(s, v, prev_body, p) matches Some(q) ==> {
            &&& q.contains_key("bearish_engulfing"@)
            &&& (q["bearish_engulfing"@] == spec_one() <==> (lt(v.open, v.close) && lt(c.close, c.open)
                && le(v.close, c.open) && le(c.close, v.open)))
            &&& (q["bearish_engulfing"@] != spec_one() ==> q["bearish_engulfing"@] == spec_zero())
            &&& (q.contains_key("bearish_engulfing_strength"@) ==> q["bearish_engulfing"@] == spec_one())
            &&& q.contains_key("bullish_engulfing"@)
            &&& (q["bullish_engulfing"@] == spec_one() <==> (lt(v.close, v.open) && lt(c.open, c.close)
                && le(c.open, v.close) && le(v.open, c.close)))
            &&& (q.contains_key("bullish_engulfing_strength"@) ==> q["bullish_engulfing"@] == spec_one())
        },
{
    reveal_strlit("bullish_engulfing");
    reveal_strlit("bearish_engulfing");
    reveal_strlit("bullish_engulfing_strength");
    reveal_strlit("bearish_engulfing_strength");
    assert(spec_one() != spec_zero());
    assert("bearish_engulfing"@[1] != "bullish_engulfing"@[1]);
    assert("bearish_engulfing"@ != "bullish_engulfing"@);
    assert("bearish_engulfing"@.len() != "bullish_engulfing_strength"@.len());
    assert("bearish_engulfing"@.len() != "bearish_engulfing_strength"@.len());
    assert("bullish_engulfing"@.len() != "bearish_engulfing_strength"@.len());
    assert("bullish_engulfing"@.len() != "bullish_engulfing_strength"@.len());
    assert("bullish_engulfing_strength"@[1] != "bearish_engulfing_strength"@[1]);
    assert("bullish_engulfing_strength"@ != "bearish_engulfing_strength"@);
}

/// Crossings in the rule language: `crossdown(a, b)` is 1 exactly when
/// `a < b` and 0 otherwise; `crossup(a, b)` and `cross(a, b)` are 1 exactly
/// when `a > b`.
pub proof fn law_crossings(a: Dec, b: Dec, ind: Indicators)
    ensures
        spec_resolve("crossdown"@, seq![a, b], ind) == Ok::<Dec, ErrV>(if lt(a, b) { spec_one() } else { spec_zero() }),
        spec_resolve("crossup"@, seq![a, b], ind) == Ok::<Dec, ErrV>(if lt(b, a) { spec_one() } else { spec_zero() }),
        spec_resolve("cross"@, seq![a, b], ind) == Ok::<Dec, ErrV>(if lt(b, a) { spec_one() } else { spec_zero() }),
{
    reveal_strlit("crossdown");
    reveal_strlit("crossup");
    reveal_strlit("cross");
    reveal_strlit("rsi");
    reveal_strlit("ema");
    reveal_strlit("sma");
    reveal_strlit("atr");
    reveal_strlit("macd");
    reveal_strlit("price");
    reveal_strlit("close");
    reveal_strlit("high");
    reveal_strlit("low");
    reveal_strlit("open");
    reveal_strlit("volume");
    reveal_strlit("pct_change");
    assert("crossdown"@ != "rsi"@) by { assert("crossdown"@.len() != "rsi"@.len()); }
    assert("crossdown"@ != "ema"@) by { assert("crossdown"@.len() != "ema"@.len()); }
    assert("crossdown"@ != "sma"@) by { assert("crossdown"@.len() != "sma"@.len()); }
    assert("crossdown"@ != "atr"@) by { assert("crossdown"@.len() != "atr"@.len()); }
    assert("crossdown"@ != "macd"@) by { assert("crossdown"@.len() != "macd"@.len()); }
    assert("crossdown"@ != "price"@) by { assert("crossdown"@.len() != "price"@.len()); }
    assert("crossdown"@ != "close"@) by { assert("crossdown"@.len() != "close"@.len()); }
    assert("crossdown"@ != "high"@) by { assert("crossdown"@.len() != "high"@.len()); }
    assert("crossdown"@ != "low"@) by { assert("crossdown"@.len() != "low"@.len()); }
    assert("crossdown"@ != "open"@) by { assert("crossdown"@.len() != "open"@.len()); }
    assert("crossdown"@ != "volume"@) by { assert("crossdown"@.len() != "volume"@.len()); }
    assert("crossdown"@ != "pct_change"@) by { assert("crossdown"@.len() != "pct_change"@.len()); }
    assert("crossdown"@ != "crossup"@) by { assert("crossdown"@.len() != "crossup"@.len()); }
    assert("crossdown"@ != "cross"@) by { assert("crossdown"@.len() != "cross"@.len()); }
    assert("crossup"@ != "rsi"@) by { assert("crossup"@.len() != "rsi"@.len()); }
    assert("crossup"@ != "ema"@) by { assert("crossup"@.len() != "ema"@.len()); }
    assert("crossup"@ != "sma"@) by { assert("crossup"@.len() != "sma"@.len()); }
    assert("crossup"@ != "atr"@) by { assert("crossup"@.len() != "atr"@.len()); }
    assert("crossup"@ != "macd"@) by { assert("crossup"@.len() != "macd"@.len()); }
    assert("crossup"@ != "price"@) by { assert("crossup"@.len() != "price"@.len()); }
    assert("crossup"@ != "close"@) by { assert("crossup"@.len() != "close"@.len()); }
    assert("crossup"@ != "high"@) by { assert("crossup"@.len() != "high"@.len()); }
    assert("crossup"@ != "low"@) by { assert("crossup"@.len() != "low"@.len()); }
    assert("crossup"@ != "open"@) by { assert("crossup"@.len() != "open"@.len()); }
    assert("crossup"@ != "volume"@) by { assert("crossup"@.len() != "volume"@.len()); }
    assert("crossup"@ != "pct_change"@) by { assert("crossup"@.len() != "pct_change"@.len()); }
    assert("crossup"@ != "crossdown"@) by { assert("crossup"@.len() != "crossdown"@.len()); }
    assert("crossup"@ != "cross"@) by { assert("crossup"@.len() != "cross"@.len()); }
    assert("cross"@ != "rsi"@) by { assert("cross"@.len() != "rsi"@.len()); }
    assert("cross"@ != "ema"@) by { assert("cross"@.len() != "ema"@.len()); }
    assert("cross"@ != "sma"@) by { assert("cross"@.len() != "sma"@.len()); }
    assert("cross"@ != "atr"@) by { assert("cross"@.len() != "atr"@.len()); }
    assert("cross"@ != "macd"@) by { assert("cross"@.len() != "macd"@.len()); }
    assert("cross"@ != "price"@) by { assert("cross"@[0] != "price"@[0]); }
    assert("cross"@ != "close"@) by { assert("cross"@[1] != "close"@[1]); }
    assert("cross"@ != "high"@) by { assert("cross"@.len() != "high"@.len()); }
    assert("cross"@ != "low"@) by { assert("cross"@.len() != "low"@.len()); }
    assert("cross"@ != "open"@) by { assert("cross"@.len() != "open"@.len()); }
    assert("cross"@ != "volume"@) by { assert("cross"@.len() != "volume"@.len()); }
    assert("cross"@ != "pct_change"@) by { assert("cross"@.len() != "pct_change"@.len()); }
    assert("cross"@ != "crossdown"@) by { assert("cross"@.len() != "crossdown"@.len()); }
    assert("cross"@ != "crossup"@) by { assert("cross"@.len() != "crossup"@.len()); }
}

/// The stop distance of an analysis: ATR(14), or 0.5% of the price without
/// it, but at least 20 pips (0.0001 on "frx" symbols, 1 otherwise).
pub open spec fn stop_distance(ind: Indicators, symbol: Seq<char>) -> Option<Dec> {
    let pip = if 3 <= symbol.len() && symbol.subrange(0, 3) == "frx"@ { dn(1, 4) } else { spec_one() };
    match (decimal_mul(ind.price, dn(5, 3)), decimal_mul(pip, spec_int(20))) {
        (Some(fallback), Some(pips)) => Some(
            spec_max(if ind.atr@.contains_key(14) { ind.atr@[14] } else { fallback }, pips),
        ),
        _ => None,
    }
}

/// Trade levels: a sale puts its stop one stop distance above the entry and
/// its target two below (`stop = entry + d`, `target = entry - 2d`); a buy
/// puts its stop one distance below and its target two above, and so does
/// any other direction ("hold"). All three levels are given to 6 places.
pub proof fn law_levels_layout(ind: Indicators, symbol: Seq<char>, direction: Seq<char>)
    ensures
        spec_levels("sell"@, ind, symbol) matches Some((e, s, t)) ==> stop_distance(ind, symbol) matches Some(d)
            && decimal_mul(d, spec_int(2)) matches Some(d2)
            && decimal_add(ind.price, d) matches Some(sl)
            && decimal_sub(ind.price, d2) matches Some(tp)
            && e == decimal_round_dp(ind.price, 6) && s == decimal_round_dp(sl, 6) && t == decimal_round_dp(tp, 6),
        direction != "sell"@ ==> (spec_levels(direction, ind, symbol) matches Some((e, s, t)) ==> stop_distance(
            ind,
            symbol,
        ) matches Some(d) && decimal_mul(d, spec_int(2)) matches Some(d2) && decimal_sub(ind.price, d) matches Some(sl)
            && decimal_add(ind.price, d2) matches Some(tp) && e == decimal_round_dp(ind.price, 6) && s
            == decimal_round_dp(sl, 6) && t == decimal_round_dp(tp, 6)),
{
}

/// Position size with a usable stop (set, nonzero, away from the entry):
/// the amount at risk, `balance * risk`, over the distance `|entry - stop|`,
/// whichever side of the entry the stop lies on. Without a stop it is 1% of
/// the balance in notional over the entry.
pub proof fn law_size_over_distance(balance: Dec, risk: Dec, entry: Dec, stop: Dec)
    requires
        !is_zero(stop),
        !same(stop, entry),
    ensures
        spec_position_size(balance, risk, entry, Some(stop)) matches Some(size) ==> decimal_mul(balance, risk)
            matches Some(at_risk) && decimal_sub(entry, stop) matches Some(d) && (is_zero(spec_abs(d)) || decimal_div(
            at_risk,
            spec_abs(d),
        ) == Some(size)),
        decimal_mul(balance, risk) is Some ==> spec_position_size(balance, risk, entry, None) == match decimal_mul(
            balance,
            dn(1, 2),
        ) {
            Some(x) => decimal_div(x, entry),
            None => None,
        },
{
}

/// Average gain and loss of the last `period` changes, each to 10 places.
pub open spec fn window_averages(s: Seq<Dec>, period: int) -> Option<(Dec, Dec)> {
    match gains_losses(s, s.len() - period - 1, s.len() as int) {
        Some((g, l)) => match (div_round(Some(g), spec_int(period), 10), div_round(Some(l), spec_int(period), 10)) {
            (Some(ag), Some(al)) => Some((ag, al)),
            _ => None,
        },
        None => None,
    }
}

/// The textbook RSI of two averages: `100 - 100 / (1 + gain / loss)`, the
/// ratio to 10 places and the result to 4; 100 without a loss.
pub open spec fn rsi_of_averages(avg_gain: Dec, avg_loss: Dec) -> Option<Dec> {
    if is_zero(avg_loss) {
        Some(spec_int(100))
    } else {
        match div_round(Some(avg_gain), avg_loss, 10) {
            Some(rs) => match decimal_add(spec_one(), rs) {
                Some(d) => match decimal_div(spec_int(100), d) {
                    Some(q) => match decimal_sub(spec_int(100), q) {
                        Some(x) => Some(decimal_round_dp(x, 4)),
                        None => None,
                    },
                    None => None,
                },
                None => None,
            },
            None => None,
        }
    }
}

/// RSI over more than `period` values is the textbook RSI of the window's
/// average gain and loss.
pub proof fn law_rsi_formula(s: Seq<Dec>, period: int)
    requires
        0 < period < s.len(),
    ensures
        spec_rsi(s, period) == match window_averages(s, period) {
            Some((ag, al)) => match rsi_of_averages(ag, al) {
                Some(v) => Some(Some(v)),
                None => None,
            },
            None => None,
        },
{
}

} // verus!
