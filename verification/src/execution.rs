//! Turning signals into trades: position sizing, fills, exits and PnL, and
//! the routing of a signal to a broker or to a simulated fill.
use crate::decimal::{
    abs, checked_add, checked_div, checked_mul, checked_sub, decimal_add, decimal_div, decimal_mul,
    decimal_sub, dn, equal, is_zero, is_zero_dec, le, less, less_eq, lt, max, one, same,
    spec_max, spec_zero, zero, Dec, MAX_MANTISSA, MAX_SCALE, pow10, neg_opt, spec_neg, lemma_units_sign,
};
use crate::domain::{
    overflow, overflow_err, AppError, AssetClass, ErrorKind, OrderType, Quote, Side, Signal, Trade,
    TradeStatus, TradingMode,
};
use crate::market::OrderRequest;
use crate::rules::series::spec_abs;
use vstd::prelude::*;

verus! {

/// Risk `balance * risk` spread over the stop distance; without a usable
/// stop (none, zero, or at the entry) 1% of the balance in notional over the
/// entry.  `None` exactly when the arithmetic fails (overflow, or a zero
/// entry without a stop).
pub open spec fn spec_position_size(balance: Dec, risk: Dec, entry: Dec, stop: Option<Dec>) -> Option<Dec> {
    match decimal_mul(balance, risk) {
        Some(risk_amount) => match stop {
            Some(s) if !is_zero(s) && !same(s, entry) => match decimal_sub(entry, s) {
                Some(d) => if is_zero(spec_abs(d)) {
                    Some(zero_spec())
                } else {
                    decimal_div(risk_amount, spec_abs(d))
                },
                None => None,
            },
            _ => match decimal_mul(balance, dn(1, 2)) {
                Some(x) => decimal_div(x, entry),
                None => None,
            },
        },
        None => None,
    }
}

pub open spec fn zero_spec() -> Dec {
    crate::decimal::spec_zero()
}

/// Sizing helper: risk a fraction of balance, sized by stop distance.
/// If no stop is known, fall back to a fixed fraction of balance converted to units.
pub fn position_size(balance: Dec, risk_per_trade: Dec, entry: Dec, stop: Option<Dec>) -> (r: Option<Dec>)
    requires
        balance.wf(),
        risk_per_trade.wf(),
        entry.wf(),
        stop matches Some(s) ==> s.wf(),
    ensures
        r == spec_position_size(balance, risk_per_trade, entry, stop),
        r matches Some(x) ==> x.wf(),
        balance.mantissa >= 0 && risk_per_trade.mantissa >= 0 && entry.mantissa >= 0 ==> (r matches Some(x)
            ==> x.mantissa >= 0),
{
    let risk_amount = match checked_mul(balance, risk_per_trade) {
        Some(v) => v,
        None => return None,
    };
    match stop {
        Some(s) => if !is_zero_dec(s) && !equal(s, entry) {
            let d = match checked_sub(entry, s) {
                Some(d) => d,
                None => return None,
            };
            let per_unit = abs(d);
            if is_zero_dec(per_unit) {
                return Some(zero());
            }
            proof {
                lemma_units_sign(per_unit);
            }
            return checked_div(risk_amount, per_unit);
        },
        None => {},
    }
    match checked_mul(balance, Dec::new(1, 2)) {
        Some(x) => {
            proof {
                lemma_units_sign(entry);
            }
            checked_div(x, entry)
        },
        None => None,
    }
}

/// The price a side fills at: the ask for a buy, the bid for a sale.
pub open spec fn spec_fill(q: Quote, side: Side) -> Dec {
    match side {
        Side::Buy => q.ask,
        Side::Sell => q.bid,
    }
}

pub fn fill_price(q: &Quote, side: Side) -> (r: Dec)
    ensures
        r == spec_fill(*q, side),
{
    match side {
        Side::Buy => q.ask,
        Side::Sell => q.bid,
    }
}

/// A trade for a signal, or nothing for a signal-only account.  The entry
/// is the quote's fill for the side, or the signal's price without a quote;
/// `id` and `now` are the new trade's identifier and opening time.
pub open spec fn spec_open_trade(
    signal: Signal,
    quote: Option<Quote>,
    stop: Option<Dec>,
    take_profit: Option<Dec>,
    balance: Dec,
    risk: Dec,
    id: u128,
    now: i64,
) -> Result<Option<Trade>, (ErrorKind, Seq<char>)> {
    if signal.mode == TradingMode::Signals {
        Ok(None)
    } else {
        let entry = match quote {
            Some(q) => spec_fill(q, signal.side),
            None => signal.price,
        };
        match spec_position_size(balance, risk, entry, stop) {
            Some(size) => Ok(
                Some(
                    Trade {
                        id,
                        account_id: signal.account_id,
                        strategy_id: signal.strategy_id,
                        signal_id: Some(signal.id),
                        symbol: signal.symbol,
                        side: signal.side,
                        order_type: OrderType::Market,
                        mode: signal.mode,
                        size,
                        entry_price: entry,
                        exit_price: None,
                        stop_loss: stop,
                        take_profit,
                        pnl: None,
                        status: TradeStatus::Open,
                        opened_at: now,
                        closed_at: None,
                    },
                ),
            ),
            None => Err(overflow_err()),
        }
    }
}

/// The trade a signal opens in paper or live-simulated mode.
pub fn open_trade(
    signal: &Signal,
    quote: Option<&Quote>,
    stop: Option<Dec>,
    take_profit: Option<Dec>,
    balance: Dec,
    risk_per_trade: Dec,
    id: u128,
    now: i64,
) -> (r: Result<Option<Trade>, AppError>)
    requires
        signal.price.wf(),
        quote matches Some(q) ==> q.bid.wf() && q.ask.wf(),
        stop matches Some(s) ==> s.wf(),
        balance.wf(),
        risk_per_trade.wf(),
    ensures
        match r {
            Ok(t) => spec_open_trade(*signal, match quote { Some(q) => Some(*q), None => None }, stop, take_profit, balance, risk_per_trade, id, now) == Ok::<Option<Trade>, (ErrorKind, Seq<char>)>(t),
            Err(e) => spec_open_trade(*signal, match quote { Some(q) => Some(*q), None => None }, stop, take_profit, balance, risk_per_trade, id, now) == Err::<Option<Trade>, (ErrorKind, Seq<char>)>(e.view_err()),
        },
{
    if signal.mode == TradingMode::Signals {
        return Ok(None);
    }
    let entry = match quote {
        Some(q) => fill_price(q, signal.side),
        None => signal.price,
    };
    let size = match position_size(balance, risk_per_trade, entry, stop) {
        Some(s) => s,
        None => return Err(overflow()),
    };
    Ok(
        Some(
            Trade {
                id,
                account_id: signal.account_id,
                strategy_id: signal.strategy_id,
                signal_id: Some(signal.id),
                symbol: signal.symbol.clone(),
                side: signal.side,
                order_type: OrderType::Market,
                mode: signal.mode,
                size,
                entry_price: entry,
                exit_price: None,
                stop_loss: stop,
                take_profit,
                pnl: None,
                status: TradeStatus::Open,
                opened_at: now,
                closed_at: None,
            },
        ),
    )
}

/// Seconds a contract order runs; spot brokers ignore it.
pub const DURATION_SECS: u32 = 300;

/// The order a live signal sends to the broker.
pub fn live_order_request(
    signal: &Signal,
    stake: Dec,
    stop_loss_price: Option<Dec>,
    take_profit_price: Option<Dec>,
    stop_loss_amount: Option<Dec>,
    take_profit_amount: Option<Dec>,
) -> (r: OrderRequest)
    ensures
        r == (OrderRequest {
            symbol: signal.symbol,
            side: signal.side,
            stake,
            duration_secs: Some(DURATION_SECS),
            stop_loss_price,
            take_profit_price,
            stop_loss_amount,
            take_profit_amount,
        }),
{
    OrderRequest {
        symbol: signal.symbol.clone(),
        side: signal.side,
        stake,
        duration_secs: Some(DURATION_SECS),
        stop_loss_price,
        take_profit_price,
        stop_loss_amount,
        take_profit_amount,
    }
}

/// The trade a filled live order opens.
pub fn live_trade(
    signal: &Signal,
    stake: Dec,
    stop_loss_price: Option<Dec>,
    take_profit_price: Option<Dec>,
    filled_price: Dec,
    id: u128,
    now: i64,
) -> (r: Trade)
    ensures
        r == (Trade {
            id,
            account_id: signal.account_id,
            strategy_id: signal.strategy_id,
            signal_id: Some(signal.id),
            symbol: signal.symbol,
            side: signal.side,
            order_type: OrderType::Market,
            mode: TradingMode::Live,
            size: stake,
            entry_price: filled_price,
            exit_price: None,
            stop_loss: stop_loss_price,
            take_profit: take_profit_price,
            pnl: None,
            status: TradeStatus::Open,
            opened_at: now,
            closed_at: None,
        }),
{
    Trade {
        id,
        account_id: signal.account_id,
        strategy_id: signal.strategy_id,
        signal_id: Some(signal.id),
        symbol: signal.symbol.clone(),
        side: signal.side,
        order_type: OrderType::Market,
        mode: TradingMode::Live,
        size: stake,
        entry_price: filled_price,
        exit_price: None,
        stop_loss: stop_loss_price,
        take_profit: take_profit_price,
        pnl: None,
        status: TradeStatus::Open,
        opened_at: now,
        closed_at: None,
    }
}

/// The balance adjustment after a live order: the stake less the magnitude
/// of the balance the broker reports.
pub fn live_balance_delta(stake: Dec, balance_after: Dec) -> (r: Option<Dec>)
    requires
        stake.wf(),
        balance_after.wf(),
    ensures
        r == decimal_sub(stake, spec_abs(balance_after)),
        r matches Some(x) ==> x.wf(),
{
    checked_sub(stake, abs(balance_after))
}

/// Why a trade exits: at its stop, at its take-profit, or not.
pub open spec fn spec_should_exit(t: Trade, q: Quote) -> (Seq<char>, bool, Dec) {
    let price = match t.side {
        Side::Buy => q.bid,
        Side::Sell => q.ask,
    };
    let stop_hit = match t.stop_loss {
        Some(sl) => match t.side {
            Side::Buy => le(price, sl),
            Side::Sell => le(sl, price),
        },
        None => false,
    };
    let tp_hit = match t.take_profit {
        Some(tp) => match t.side {
            Side::Buy => le(tp, price),
            Side::Sell => le(price, tp),
        },
        None => false,
    };
    if stop_hit {
        ("stop"@, true, price)
    } else if tp_hit {
        ("tp"@, true, price)
    } else {
        ("none"@, false, price)
    }
}

/// Whether the latest quote closes a trade, and at what price: a buy exits
/// at the bid, a sale at the ask; the stop is checked before the take-profit.
pub fn should_exit(t: &Trade, q: &Quote) -> (r: (&'static str, bool, Dec))
    requires
        q.bid.wf(),
        q.ask.wf(),
        t.stop_loss matches Some(s) ==> s.wf(),
        t.take_profit matches Some(s) ==> s.wf(),
    ensures
        (r.0@, r.1, r.2) == spec_should_exit(*t, *q),
{
    let price = match t.side {
        Side::Buy => q.bid,
        Side::Sell => q.ask,
    };
    match t.stop_loss {
        Some(sl) => match t.side {
            Side::Buy => if less_eq(price, sl) {
                return ("stop", true, price);
            },
            Side::Sell => if less_eq(sl, price) {
                return ("stop", true, price);
            },
        },
        None => {},
    }
    match t.take_profit {
        Some(tp) => match t.side {
            Side::Buy => if less_eq(tp, price) {
                return ("tp", true, price);
            },
            Side::Sell => if less_eq(price, tp) {
                return ("tp", true, price);
            },
        },
        None => {},
    }
    ("none", false, price)
}

/// PnL of closing a trade at `exit`: the move in the trade's favour per unit times its size.
pub open spec fn spec_pnl(t: Trade, exit: Dec) -> Option<Dec> {
    let per_unit = match t.side {
        Side::Buy => decimal_sub(exit, t.entry_price),
        Side::Sell => decimal_sub(t.entry_price, exit),
    };
    match per_unit {
        Some(p) => decimal_mul(p, t.size),
        None => None,
    }
}

/// The move in the trade's favour, in mantissa steps of the common scale.
pub open spec fn pnl_move(t: Trade, exit: Dec) -> int {
    match t.side {
        Side::Buy => exit.mantissa - t.entry_price.mantissa,
        Side::Sell => t.entry_price.mantissa - exit.mantissa,
    }
}

/// Nothing in the PnL is rounded: exit and entry share a scale, the move and
/// its product with the size fit in 96 bits, and the scales add up to at most 28.
pub open spec fn pnl_is_exact(t: Trade, exit: Dec) -> bool {
    &&& exit.scale == t.entry_price.scale
    &&& -MAX_MANTISSA <= exit.mantissa - t.entry_price.mantissa <= MAX_MANTISSA
    &&& exit.scale + t.size.scale <= MAX_SCALE
    &&& -MAX_MANTISSA <= pnl_move(t, exit) * t.size.mantissa <= MAX_MANTISSA
}

/// The exact PnL, in units of `10^-28`.
pub open spec fn exact_pnl_units(t: Trade, exit: Dec) -> int {
    (pnl_move(t, exit) * t.size.mantissa) * pow10((MAX_SCALE - exit.scale - t.size.scale) as nat)
}

pub fn compute_pnl(t: &Trade, exit: Dec) -> (r: Option<Dec>)
    requires
        t.entry_price.wf(),
        t.size.wf(),
        exit.wf(),
    ensures
        r == spec_pnl(*t, exit),
        r matches Some(x) ==> x.wf(),
        exit.units() == t.entry_price.units() ==> r == Some(spec_zero()),
        pnl_is_exact(*t, exit) ==> r is Some && r.unwrap().units() == exact_pnl_units(*t, exit),
        t.side == Side::Buy && t.size.mantissa > 0 ==> (r matches Some(x) ==> (x.mantissa > 0 ==> lt(
            t.entry_price,
            exit,
        )) && (lt(t.entry_price, exit) && x.mantissa != 0 ==> x.mantissa > 0)),
        t.side == Side::Sell && t.size.mantissa > 0 ==> (r matches Some(x) ==> (x.mantissa > 0 ==> lt(
            exit,
            t.entry_price,
        )) && (lt(exit, t.entry_price) && x.mantissa != 0 ==> x.mantissa > 0)),
        forall|t2: Trade|
            #![trigger spec_pnl(t2, exit)]
            t2.side != t.side && t2.entry_price == t.entry_price && t2.size == t.size && (exit.mantissa != 0
                || t.entry_price.mantissa != 0) ==> spec_pnl(t2, exit) == neg_opt(r),
{
    let per_unit = match t.side {
        Side::Buy => checked_sub(exit, t.entry_price),
        Side::Sell => checked_sub(t.entry_price, exit),
    };
    match per_unit {
        Some(p) => {
            let r = checked_mul(p, t.size);
            proof {
                assert forall|t2: Trade|
                    #![trigger spec_pnl(t2, exit)]
                    t2.side != t.side && t2.entry_price == t.entry_price && t2.size == t.size && (exit.mantissa
                        != 0 || t.entry_price.mantissa != 0) implies spec_pnl(t2, exit) == neg_opt(r) by {
                    let q = match t2.side {
                        Side::Buy => decimal_sub(exit, t.entry_price),
                        Side::Sell => decimal_sub(t.entry_price, exit),
                    };
                    assert(q is Some && q.unwrap() == spec_neg(p));
                }
                if pnl_is_exact(*t, exit) {
                    let m = pnl_move(*t, exit);
                    assert(p == Dec { mantissa: m as i128, scale: exit.scale });
                    if m == 0 || t.size.mantissa == 0 {
                        assert((m * t.size.mantissa) * pow10((MAX_SCALE - exit.scale - t.size.scale) as nat) == 0)
                            by (nonlinear_arith)
                            requires
                                m == 0 || t.size.mantissa == 0,
                        ;
                        assert(r == Some(spec_zero()));
                        assert(spec_zero().units() == 0);
                    } else {
                        let prod = m * t.size.mantissa;
                        let q = Dec { mantissa: prod as i128, scale: (exit.scale + t.size.scale) as u32 };
                        assert(r == Some(q));
                        assert(q.mantissa == prod);
                        assert((MAX_SCALE - q.scale) as nat == (MAX_SCALE - exit.scale - t.size.scale) as nat);
                        assert(q.units() == exact_pnl_units(*t, exit));
                    }
                }
            }
            r
        },
        None => None,
    }
}

/// The settlement of an open trade against a quote: `Some((exit, pnl))` when
/// it exits, `None` when it stays open.
pub open spec fn spec_settle(t: Trade, q: Quote) -> Result<Option<(Dec, Dec)>, (ErrorKind, Seq<char>)> {
    let (_, hit, price) = spec_should_exit(t, q);
    if hit {
        match spec_pnl(t, price) {
            Some(p) => Ok(Some((price, p))),
            None => Err(overflow_err()),
        }
    } else {
        Ok(None)
    }
}

/// Close a trade that hits its stop or take-profit: the exit price and PnL.
pub fn settle(t: &Trade, q: &Quote) -> (r: Result<Option<(Dec, Dec)>, AppError>)
    requires
        q.bid.wf(),
        q.ask.wf(),
        t.entry_price.wf(),
        t.size.wf(),
        t.stop_loss matches Some(s) ==> s.wf(),
        t.take_profit matches Some(s) ==> s.wf(),
    ensures
        match r {
            Ok(x) => spec_settle(*t, *q) == Ok::<Option<(Dec, Dec)>, (ErrorKind, Seq<char>)>(x),
            Err(e) => spec_settle(*t, *q) == Err::<Option<(Dec, Dec)>, (ErrorKind, Seq<char>)>(e.view_err()),
        },
{
    let (_, hit, price) = should_exit(t, q);
    if hit {
        match compute_pnl(t, price) {
            Some(p) => Ok(Some((price, p))),
            None => Err(overflow()),
        }
    } else {
        Ok(None)
    }
}

// ------------------------------------------------------------ engine tick

/// Risk amount in account currency: `balance * risk`; `None` on overflow.
pub fn monetary_limit(balance: Dec, risk_per_trade: Dec) -> (r: Option<Dec>)
    requires
        balance.wf(),
        risk_per_trade.wf(),
    ensures
        r == decimal_mul(balance, risk_per_trade),
        r matches Some(x) ==> x.wf(),
{
    checked_mul(balance, risk_per_trade)
}

/// Stake sized as the risk amount, at least the 0.35 minimum stake.
pub open spec fn spec_stake(balance: Dec, risk: Dec) -> Option<Dec> {
    match decimal_mul(balance, risk) {
        Some(s) => Some(spec_max(s, dn(35, 2))),
        None => None,
    }
}

pub fn stake_from_risk(balance: Dec, risk_per_trade: Dec) -> (r: Option<Dec>)
    requires
        balance.wf(),
        risk_per_trade.wf(),
    ensures
        r == spec_stake(balance, risk_per_trade),
        r matches Some(x) ==> x.wf(),
{
    match checked_mul(balance, risk_per_trade) {
        Some(s) => Some(max(s, Dec::new(35, 2))),
        None => None,
    }
}

/// Size of a pip: 0.0001 for forex, 1 point for indices.
pub open spec fn pip_size(class: AssetClass) -> Dec {
    match class {
        AssetClass::Forex => dn(1, 4),
        AssetClass::DerivIndex => dn(1, 0),
    }
}

/// The price `pips` away from `entry`: in the trade's favour for a
/// take-profit, against it for a stop.
pub open spec fn spec_offset(entry: Dec, side: Side, pips: Dec, class: AssetClass, profit: bool) -> Option<Dec> {
    match decimal_mul(pips, pip_size(class)) {
        Some(delta) => {
            let up = decimal_add(entry, delta);
            let down = decimal_sub(entry, delta);
            match (up, down) {
                (Some(u), Some(d)) => Some(
                    match side {
                        Side::Buy => if profit {
                            u
                        } else {
                            d
                        },
                        Side::Sell => if profit {
                            d
                        } else {
                            u
                        },
                    },
                ),
                _ => None,
            }
        },
        None => None,
    }
}

/// Convert a pips/points distance into an absolute price level.
pub fn offset_price(entry: Dec, side: Side, pips: Dec, class: AssetClass, profit: bool) -> (r: Option<Dec>)
    requires
        entry.wf(),
        pips.wf(),
    ensures
        r == spec_offset(entry, side, pips, class, profit),
        r matches Some(x) ==> x.wf(),
{
    let pip = match class {
        AssetClass::Forex => Dec::new(1, 4),
        AssetClass::DerivIndex => one(),
    };
    let delta = match checked_mul(pips, pip) {
        Some(d) => d,
        None => return None,
    };
    let favorable_buy = checked_add(entry, delta);
    let favorable_sell = checked_sub(entry, delta);
    match (favorable_buy, favorable_sell) {
        (Some(u), Some(d)) => Some(
            match side {
                Side::Buy => if profit {
                    u
                } else {
                    d
                },
                Side::Sell => if profit {
                    d
                } else {
                    u
                },
            },
        ),
        _ => None,
    }
}

/// Where a signal goes.
#[derive(Clone, Copy, Debug)]
pub enum Route {
    /// To the broker, with a stake and a monetary stop and take-profit.
    Live { stake: Dec, limit: Dec },
    /// To a simulated fill at the quote.
    Simulated,
}

/// Live accounts with a broker for the strategy's asset class send the
/// order to it; every other signal gets a simulated fill.
pub open spec fn spec_route(mode: TradingMode, has_broker: bool, balance: Dec, risk: Dec) -> Option<Route> {
    if mode == TradingMode::Live && has_broker {
        match (spec_stake(balance, risk), decimal_mul(balance, risk)) {
            (Some(stake), Some(limit)) => Some(Route::Live { stake, limit }),
            _ => None,
        }
    } else {
        Some(Route::Simulated)
    }
}

pub fn route_signal(mode: TradingMode, has_broker: bool, balance: Dec, risk_per_trade: Dec) -> (r: Option<Route>)
    requires
        balance.wf(),
        risk_per_trade.wf(),
    ensures
        r == spec_route(mode, has_broker, balance, risk_per_trade),
{
    if mode == TradingMode::Live && has_broker {
        let stake = match stake_from_risk(balance, risk_per_trade) {
            Some(s) => s,
            None => return None,
        };
        let limit = match monetary_limit(balance, risk_per_trade) {
            Some(l) => l,
            None => return None,
        };
        Some(Route::Live { stake, limit })
    } else {
        Some(Route::Simulated)
    }
}

} // verus!
