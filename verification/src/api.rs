//! The decisions behind the HTTP endpoints: account modes, and manual
//! trades placed on an analysis.
use crate::ai::candle::atr_or;
use crate::ai::evidence::{cat3, cat4};
use crate::decimal::{
    checked_add, checked_mul, checked_sub, decimal_add, decimal_display, decimal_mul, decimal_sub,
    display, dn, max, one, spec_int, spec_max, spec_one, whole, Dec,
};
use crate::domain::{
    spec_mode_name, spec_parse_mode, AppError, AssetClass, ErrorKind, OrderType, Side, Signal, Trade,
    TradeStatus, TradingMode,
};
use crate::market::OrderRequest;
use crate::rules::indicators::Indicators;
use crate::text::{starts_with, str_eq};
use vstd::prelude::*;

verus! {

/// Input for creating an account.
#[derive(Clone, Debug)]
pub struct CreateAccount {
    pub label: String,
    pub broker: String,
    pub account_ref: String,
    pub balance: Dec,
    pub currency: String,
    pub mode: Option<String>,
}

/// Input for changing an account's mode.
#[derive(Clone, Debug)]
pub struct SetMode {
    pub mode: String,
}

/// The currency an account gets when none is given.
pub fn usd() -> (r: String)
    ensures
        r@ == "USD"@,
{
    String::from_str("USD")
}

/// The mode a new account gets: the requested one when it names a mode,
/// else the configured default when that does, else paper.
pub open spec fn spec_account_mode(requested: Option<Seq<char>>, default_mode: Seq<char>) -> TradingMode {
    match requested {
        Some(r) if spec_parse_mode(r) is Some => spec_parse_mode(r).unwrap(),
        _ => match spec_parse_mode(default_mode) {
            Some(m) => m,
            None => TradingMode::Paper,
        },
    }
}

pub fn account_mode(requested: Option<&str>, default_mode: &str) -> (r: TradingMode)
    ensures
        r == spec_account_mode(
            match requested {
                Some(s) => Some(s@),
                None => None,
            },
            default_mode@,
        ),
{
    match requested {
        Some(s) => match TradingMode::parse(s) {
            Some(m) => return m,
            None => {},
        },
        None => {},
    }
    match TradingMode::parse(default_mode) {
        Some(m) => m,
        None => TradingMode::Paper,
    }
}

/// The mode a mode change asks for, or a bad request.
pub fn requested_mode(req: &SetMode) -> (r: Result<TradingMode, AppError>)
    ensures
        match r {
            Ok(m) => spec_parse_mode(req.mode@) == Some(m),
            Err(e) => spec_parse_mode(req.mode@) is None && e.view_err() == (
                ErrorKind::BadRequest,
                "invalid mode (paper|signals|live)"@,
            ),
        },
{
    match TradingMode::parse(req.mode.as_str()) {
        Some(m) => Ok(m),
        None => Err(AppError::BadRequest(String::from_str("invalid mode (paper|signals|live)"))),
    }
}

/// The symbol starts with "frx".
pub open spec fn is_frx(symbol: Seq<char>) -> bool {
    3 <= symbol.len() && symbol.subrange(0, 3) == "frx"@
}

/// The asset class of a request: the one given, else forex for "frx"
/// symbols and indices otherwise.
pub open spec fn spec_class_for(symbol: Seq<char>, requested: Option<AssetClass>) -> AssetClass {
    match requested {
        Some(c) => c,
        None => if is_frx(symbol) {
            AssetClass::Forex
        } else {
            AssetClass::DerivIndex
        },
    }
}

pub fn asset_class_for(symbol: &str, requested: Option<AssetClass>) -> (r: AssetClass)
    ensures
        r == spec_class_for(symbol@, requested),
{
    proof {
        reveal_strlit("frx");
    }
    match requested {
        Some(c) => c,
        None => if starts_with(symbol, "frx") {
            AssetClass::Forex
        } else {
            AssetClass::DerivIndex
        },
    }
}

/// The side a manual trade asks for: "buy" or "sell".
pub fn parse_side(direction: &str) -> (r: Result<Side, AppError>)
    ensures
        match r {
            Ok(s) => (direction@ == "buy"@ && s == Side::Buy) || (direction@ == "sell"@ && s
                == Side::Sell),
            Err(e) => direction@ != "buy"@ && direction@ != "sell"@ && e.view_err() == (
                ErrorKind::BadRequest,
                "direction must be 'buy' or 'sell'"@,
            ),
        },
{
    if str_eq(direction, "buy") {
        Ok(Side::Buy)
    } else if str_eq(direction, "sell") {
        Ok(Side::Sell)
    } else {
        Err(AppError::BadRequest(String::from_str("direction must be 'buy' or 'sell'")))
    }
}

/// Stop and target of a manual trade: one stop distance against the side
/// and two in its favour, the distance being the larger of ATR(14) (0.5% of
/// the entry without it) and 20 pips.
pub open spec fn spec_exits(side: Side, entry: Dec, ind: Indicators, symbol: Seq<char>) -> Option<(Dec, Dec)> {
    let pip = if is_frx(symbol) {
        dn(1, 4)
    } else {
        spec_one()
    };
    match (decimal_mul(entry, dn(5, 3)), decimal_mul(pip, spec_int(20))) {
        (Some(fallback), Some(pips)) => {
            let sl_dist = spec_max(atr_or(ind, fallback), pips);
            match decimal_mul(sl_dist, spec_int(2)) {
                Some(tp_dist) => match side {
                    Side::Buy => match (decimal_sub(entry, sl_dist), decimal_add(entry, tp_dist)) {
                        (Some(s), Some(t)) => Some((s, t)),
                        _ => None,
                    },
                    Side::Sell => match (decimal_add(entry, sl_dist), decimal_sub(entry, tp_dist)) {
                        (Some(s), Some(t)) => Some((s, t)),
                        _ => None,
                    },
                },
                None => None,
            }
        },
        _ => None,
    }
}

pub fn trade_exits(side: Side, entry: Dec, ind: &Indicators, symbol: &str) -> (r: Option<(Dec, Dec)>)
    requires
        entry.wf(),
        ind.wf(),
    ensures
        r == spec_exits(side, entry, *ind, symbol@),
        r matches Some((s, t)) ==> s.wf() && t.wf(),
{
    proof {
        reveal_strlit("frx");
    }
    let pip = if starts_with(symbol, "frx") {
        Dec::new(1, 4)
    } else {
        one()
    };
    let fallback = match checked_mul(entry, Dec::new(5, 3)) {
        Some(x) => x,
        None => return None,
    };
    let pips = match checked_mul(pip, whole(20)) {
        Some(x) => x,
        None => return None,
    };
    let atr = match ind.atr.get(&14) {
        Some(v) => {
            assert(ind.atr@.contains_key(14usize));
            *v
        },
        None => fallback,
    };
    let sl_dist = max(atr, pips);
    let tp_dist = match checked_mul(sl_dist, whole(2)) {
        Some(x) => x,
        None => return None,
    };
    let (s, t) = match side {
        Side::Buy => (checked_sub(entry, sl_dist), checked_add(entry, tp_dist)),
        Side::Sell => (checked_add(entry, sl_dist), checked_sub(entry, tp_dist)),
    };
    match (s, t) {
        (Some(s), Some(t)) => Some((s, t)),
        _ => None,
    }
}

/// The stake of a manual trade: the one given, else 1% of the balance
/// (which is computed either way, so it may overflow either way).
pub open spec fn spec_stake_or(stake: Option<Dec>, balance: Dec) -> Option<Dec> {
    match decimal_mul(balance, dn(1, 2)) {
        Some(d) => Some(
            match stake {
                Some(s) => s,
                None => d,
            },
        ),
        None => None,
    }
}

pub fn stake_or_default(stake: Option<Dec>, balance: Dec) -> (r: Option<Dec>)
    requires
        balance.wf(),
        stake matches Some(s) ==> s.wf(),
    ensures
        r == spec_stake_or(stake, balance),
        r matches Some(s) ==> s.wf(),
{
    let d = match checked_mul(balance, Dec::new(1, 2)) {
        Some(x) => x,
        None => return None,
    };
    match stake {
        Some(s) => Some(s),
        None => Some(d),
    }
}

/// Where a manually placed trade goes.
#[derive(Clone, Copy, Debug, PartialEq, Eq, Structural)]
pub enum ManualRoute {
    /// To the account's broker; a failed order falls back to a simulated trade.
    Broker,
    /// A simulated trade at the quote, recorded in the account's own mode.
    Simulated,
    /// Only the signal is recorded: no trade is opened and no order is sent.
    SignalOnly,
}

/// A signals account only records the signal; a live account with a broker
/// for the symbol's asset class places the order with it; paper accounts,
/// and live accounts without a broker, record a simulated trade.
pub open spec fn spec_manual_route(mode: TradingMode, has_broker: bool) -> ManualRoute {
    match mode {
        TradingMode::Signals => ManualRoute::SignalOnly,
        TradingMode::Live => if has_broker {
            ManualRoute::Broker
        } else {
            ManualRoute::Simulated
        },
        TradingMode::Paper => ManualRoute::Simulated,
    }
}

pub fn route_manual(mode: TradingMode, has_broker: bool) -> (r: ManualRoute)
    ensures
        r == spec_manual_route(mode, has_broker),
{
    match mode {
        TradingMode::Signals => ManualRoute::SignalOnly,
        TradingMode::Live => if has_broker {
            ManualRoute::Broker
        } else {
            ManualRoute::Simulated
        },
        TradingMode::Paper => ManualRoute::Simulated,
    }
}

/// The signal a manual request records in signals mode: the user's chosen
/// side at the entry price, at full strength.
pub fn manual_signal(
    id: u128,
    account_id: u128,
    strategy_id: u128,
    symbol: &str,
    side: Side,
    price: Dec,
    now: i64,
) -> (r: Signal)
    ensures
        r.id == id,
        r.account_id == account_id,
        r.strategy_id == strategy_id,
        r.symbol@ == symbol@,
        r.side == side,
        r.price == price,
        r.strength == spec_one(),
        r.rationale@ == "manual trade request"@,
        r.mode == TradingMode::Signals,
        r.created_at == now,
{
    Signal {
        id,
        strategy_id,
        account_id,
        symbol: String::from_str(symbol),
        side,
        price,
        strength: one(),
        rationale: String::from_str("manual trade request"),
        mode: TradingMode::Signals,
        created_at: now,
    }
}

/// "Signal recorded (signals): {direction} {symbol} at {price}".
pub fn signal_message(direction: &str, symbol: &str, price: Dec) -> (r: String)
    requires
        price.wf(),
    ensures
        r@ == "Signal recorded (signals): "@ + direction@ + " "@ + symbol@ + " at "@ + decimal_display(price),
{
    let mut s = String::from_str("Signal recorded (signals): ");
    s.append(direction);
    s.append(" ");
    s.append(symbol);
    s.append(" at ");
    s.append(display(price).as_str());
    s
}

/// The broker order of a manual live trade: at least 15 seconds long, with
/// price stops and a monetary stop of the stake and target of twice it.
pub open spec fn spec_manual_order(symbol: Seq<char>, side: Side, stake: Dec, tf_secs: u32, stop: Dec, tp: Dec, o: OrderRequest) -> bool {
    &&& o.symbol@ == symbol
    &&& o.side == side
    &&& o.stake == stake
    &&& o.duration_secs == Some(if tf_secs < 15 { 15u32 } else { tf_secs })
    &&& o.stop_loss_price == Some(stop)
    &&& o.take_profit_price == Some(tp)
    &&& o.stop_loss_amount == Some(stake)
    &&& o.take_profit_amount == decimal_mul(stake, spec_int(2))
}

pub fn manual_order(symbol: &str, side: Side, stake: Dec, tf_secs: u32, stop: Dec, tp: Dec) -> (r: Option<OrderRequest>)
    requires
        stake.wf(),
    ensures
        r is None <==> decimal_mul(stake, spec_int(2)) is None,
        r matches Some(o) ==> spec_manual_order(symbol@, side, stake, tf_secs, stop, tp, o),
{
    let twice = match checked_mul(stake, whole(2)) {
        Some(x) => x,
        None => return None,
    };
    let duration = if tf_secs < 15 {
        15
    } else {
        tf_secs
    };
    Some(
        OrderRequest {
            symbol: String::from_str(symbol),
            side,
            stake,
            duration_secs: Some(duration),
            stop_loss_price: Some(stop),
            take_profit_price: Some(tp),
            stop_loss_amount: Some(stake),
            take_profit_amount: Some(twice),
        },
    )
}

/// A trade placed by hand, with no signal behind it.
pub fn manual_trade(
    id: u128,
    account_id: u128,
    strategy_id: u128,
    symbol: &str,
    side: Side,
    mode: TradingMode,
    stake: Dec,
    entry: Dec,
    stop: Dec,
    tp: Dec,
    now: i64,
) -> (r: Trade)
    ensures
        r.id == id,
        r.account_id == account_id,
        r.strategy_id == strategy_id,
        r.signal_id is None,
        r.symbol@ == symbol@,
        r.side == side,
        r.order_type == OrderType::Market,
        r.mode == mode,
        r.size == stake,
        r.entry_price == entry,
        r.exit_price is None,
        r.stop_loss == Some(stop),
        r.take_profit == Some(tp),
        r.pnl is None,
        r.status == TradeStatus::Open,
        r.opened_at == now,
        r.closed_at is None,
{
    Trade {
        id,
        account_id,
        strategy_id,
        signal_id: None,
        symbol: String::from_str(symbol),
        side,
        order_type: OrderType::Market,
        mode,
        size: stake,
        entry_price: entry,
        exit_price: None,
        stop_loss: Some(stop),
        take_profit: Some(tp),
        pnl: None,
        status: TradeStatus::Open,
        opened_at: now,
        closed_at: None,
    }
}

/// "LIVE trade placed via broker: {direction} {symbol} at {price}".
pub fn live_message(direction: &str, symbol: &str, filled: Dec) -> (r: String)
    requires
        filled.wf(),
    ensures
        r@ == "LIVE trade placed via broker: "@ + direction@ + " "@ + symbol@ + " at "@
            + decimal_display(filled),
{
    let mut s = cat4("LIVE trade placed via broker: ", direction, " ", symbol);
    s.append(" at ");
    s.append(display(filled).as_str());
    s
}

/// "Trade placed ({mode}): {direction} {symbol} at {price}".
pub fn placed_message(mode: TradingMode, direction: &str, symbol: &str, entry: Dec) -> (r: String)
    requires
        entry.wf(),
    ensures
        r@ == "Trade placed ("@ + spec_mode_name(mode) + "): "@ + direction@ + " "@ + symbol@ + " at "@
            + decimal_display(entry),
{
    let mut s = cat3("Trade placed (", mode.name(), "): ");
    s.append(direction);
    s.append(" ");
    s.append(symbol);
    s.append(" at ");
    s.append(display(entry).as_str());
    s
}

} // verus!
