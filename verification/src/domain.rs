//! The trading domain: modes, sides, asset classes, candles, trades, signals,
//! strategies and their rules, and the errors the engine reports.
use crate::decimal::{one, spec_one, Dec};
use crate::text::{ascii_lower_seq, str_eq, to_ascii_lowercase};
use vstd::prelude::*;

verus! {

/// How an account acts on signals.
#[derive(Clone, Copy, Debug, PartialEq, Eq, Structural)]
pub enum TradingMode {
    /// Simulated trades, PnL tracked against live quotes.
    Paper,
    /// Signals are recorded, no trade is opened.
    Signals,
    /// Orders go to the broker.
    Live,
}

/// The mode a name stands for, ignoring ASCII case.
pub open spec fn spec_parse_mode(s: Seq<char>) -> Option<TradingMode> {
    let l = ascii_lower_seq(s);
    if l == "paper"@ {
        Some(TradingMode::Paper)
    } else if l == "signals"@ {
        Some(TradingMode::Signals)
    } else if l == "live"@ {
        Some(TradingMode::Live)
    } else {
        None
    }
}

impl TradingMode {
    /// `paper`, `signals` or `live`, in any ASCII case.
    pub fn parse(s: &str) -> (r: Option<TradingMode>)
        ensures
            r == spec_parse_mode(s@),
    {
        let l = to_ascii_lowercase(s);
        if str_eq(l.as_str(), "paper") {
            Some(TradingMode::Paper)
        } else if str_eq(l.as_str(), "signals") {
            Some(TradingMode::Signals)
        } else if str_eq(l.as_str(), "live") {
            Some(TradingMode::Live)
        } else {
            None
        }
    }

    /// The lower-case name of the mode.
    pub fn name(&self) -> (r: &'static str)
        ensures
            r@ == spec_mode_name(*self),
    {
        match self {
            TradingMode::Paper => "paper",
            TradingMode::Signals => "signals",
            TradingMode::Live => "live",
        }
    }
}

/// The lower-case name of a mode.
pub open spec fn spec_mode_name(m: TradingMode) -> Seq<char> {
    match m {
        TradingMode::Paper => "paper"@,
        TradingMode::Signals => "signals"@,
        TradingMode::Live => "live"@,
    }
}

impl Default for TradingMode {
    /// Paper trading, so that nothing moves money by default.
    fn default() -> (r: TradingMode)
        ensures
            r == TradingMode::Paper,
    {
        TradingMode::Paper
    }
}

/// Direction of a trade.
#[derive(Clone, Copy, Debug, PartialEq, Eq, Structural)]
pub enum Side {
    Buy,
    Sell,
}

/// The markets a strategy trades.
#[derive(Clone, Copy, Debug, PartialEq, Eq, Structural)]
pub enum AssetClass {
    Forex,
    DerivIndex,
}

/// How an order is placed.
#[derive(Clone, Copy, Debug, PartialEq, Eq, Structural)]
pub enum OrderType {
    Market,
    Limit,
    Stop,
}

/// Where a note stands in extraction.
#[derive(Clone, Copy, Debug, PartialEq, Eq, Structural)]
pub enum NoteStatus {
    Pending,
    Extracted,
    Failed,
}

/// Who wrote a strategy.
#[derive(Clone, Copy, Debug, PartialEq, Eq, Structural)]
pub enum StrategySource {
    Manual,
    Llm,
}

/// Life cycle of a trade.
#[derive(Clone, Copy, Debug, PartialEq, Eq, Structural)]
pub enum TradeStatus {
    Open,
    Closed,
    Rejected,
    Cancelled,
}

/// The errors the engine reports, each with its message.
#[derive(Clone, Debug)]
pub enum AppError {
    Internal(String),
    BadRequest(String),
    NotFound(String),
    Market(String),
    Llm(String),
    Execution(String),
}

/// The abstract form of an error: its kind and message.
#[derive(PartialEq, Eq, Structural)]
pub enum ErrorKind {
    Internal,
    BadRequest,
    NotFound,
    Market,
    Llm,
    Execution,
}

impl AppError {
    /// The kind of the error.
    pub open spec fn kind(&self) -> ErrorKind {
        match self {
            AppError::Internal(_) => ErrorKind::Internal,
            AppError::BadRequest(_) => ErrorKind::BadRequest,
            AppError::NotFound(_) => ErrorKind::NotFound,
            AppError::Market(_) => ErrorKind::Market,
            AppError::Llm(_) => ErrorKind::Llm,
            AppError::Execution(_) => ErrorKind::Execution,
        }
    }

    /// The message of the error.
    pub open spec fn message(&self) -> Seq<char> {
        match self {
            AppError::Internal(m) => m@,
            AppError::BadRequest(m) => m@,
            AppError::NotFound(m) => m@,
            AppError::Market(m) => m@,
            AppError::Llm(m) => m@,
            AppError::Execution(m) => m@,
        }
    }

    /// Kind and message together.
    pub open spec fn view_err(&self) -> (ErrorKind, Seq<char>) {
        (self.kind(), self.message())
    }
}

/// The error reported where a decimal operation overflows.
pub open spec fn overflow_err() -> (ErrorKind, Seq<char>) {
    (ErrorKind::Internal, "decimal overflow"@)
}

pub fn overflow() -> (e: AppError)
    ensures
        e.view_err() == overflow_err(),
{
    AppError::Internal(String::from_str("decimal overflow"))
}

/// A bar of market data; `ts` is the bar's time in Unix seconds.
#[derive(Clone, Debug)]
pub struct Candle {
    pub symbol: String,
    pub ts: i64,
    pub open: Dec,
    pub high: Dec,
    pub low: Dec,
    pub close: Dec,
    pub volume: Dec,
}

impl Candle {
    /// All prices and the volume are valid decimals.
    pub open spec fn wf(&self) -> bool {
        &&& self.open.wf()
        &&& self.high.wf()
        &&& self.low.wf()
        &&& self.close.wf()
        &&& self.volume.wf()
    }
}

/// All candles hold valid decimals.
pub open spec fn candles_wf(cs: Seq<Candle>) -> bool {
    forall|i: int| 0 <= i < cs.len() ==> #[trigger] cs[i].wf()
}

/// A bid/ask quote; `ts` is in Unix seconds.
#[derive(Clone, Debug)]
pub struct Quote {
    pub symbol: String,
    pub bid: Dec,
    pub ask: Dec,
    pub ts: i64,
}

/// An account; identifiers are UUIDs as 128-bit integers, times in Unix seconds.
#[derive(Clone, Debug)]
pub struct Account {
    pub id: u128,
    pub label: String,
    pub broker: String,
    pub account_ref: String,
    pub mode: TradingMode,
    pub balance: Dec,
    pub currency: String,
    pub created_at: i64,
}

/// A position, open or closed.
#[derive(Clone, Debug)]
pub struct Trade {
    pub id: u128,
    pub account_id: u128,
    pub strategy_id: u128,
    pub signal_id: Option<u128>,
    pub symbol: String,
    pub side: Side,
    pub order_type: OrderType,
    pub mode: TradingMode,
    pub size: Dec,
    pub entry_price: Dec,
    pub exit_price: Option<Dec>,
    pub stop_loss: Option<Dec>,
    pub take_profit: Option<Dec>,
    pub pnl: Option<Dec>,
    pub status: TradeStatus,
    pub opened_at: i64,
    pub closed_at: Option<i64>,
}

/// Input for closing a trade by hand.
#[derive(Clone, Debug)]
pub struct CloseTrade {
    pub exit_price: Dec,
}

/// Emitted by the strategy engine when rules evaluate to a tradeable condition.
#[derive(Clone, Debug)]
pub struct Signal {
    pub id: u128,
    pub strategy_id: u128,
    pub account_id: u128,
    pub symbol: String,
    pub side: Side,
    pub price: Dec,
    /// 0.0-1.0 aggregate of rule weights.
    pub strength: Dec,
    pub rationale: String,
    pub mode: TradingMode,
    pub created_at: i64,
}

/// Query filter over signals.
#[derive(Clone, Debug)]
pub struct SignalFilter {
    pub strategy_id: Option<u128>,
    pub symbol: Option<String>,
    pub limit: Option<i64>,
}

/// A single, deterministic trading rule; `expr` is in the rule language.
#[derive(Clone, Debug)]
pub struct Rule {
    pub id: u128,
    pub strategy_id: u128,
    pub name: String,
    pub expr: String,
    pub weight: Dec,
    pub enabled: bool,
}

/// A strategy; SL/TP are distances in pips (forex) or points (indices).
#[derive(Clone, Debug)]
pub struct Strategy {
    pub id: u128,
    pub account_id: u128,
    pub name: String,
    pub description: Option<String>,
    pub asset_class: AssetClass,
    pub symbols: Vec<String>,
    pub stop_loss: Option<Dec>,
    pub take_profit: Option<Dec>,
    /// Fraction of balance to risk per trade, 0.0-1.0.
    pub risk_per_trade: Dec,
    pub enabled: bool,
    pub source: StrategySource,
    pub created_at: i64,
    pub updated_at: i64,
}

/// Input for creating a strategy with its rules.
#[derive(Clone, Debug)]
pub struct CreateStrategy {
    pub name: String,
    pub description: Option<String>,
    pub asset_class: AssetClass,
    pub symbols: Vec<String>,
    pub stop_loss: Option<Dec>,
    pub take_profit: Option<Dec>,
    pub risk_per_trade: Dec,
    pub rules: Vec<CreateRule>,
}

/// Input for one rule of a new strategy.
#[derive(Clone, Debug)]
pub struct CreateRule {
    pub name: String,
    pub expr: String,
    pub weight: Dec,
}

/// Partial update of a strategy.
#[derive(Clone, Debug)]
pub struct UpdateStrategy {
    pub name: Option<String>,
    pub description: Option<String>,
    pub symbols: Option<Vec<String>>,
    pub stop_loss: Option<Option<Dec>>,
    pub take_profit: Option<Option<Dec>>,
    pub risk_per_trade: Option<Dec>,
    pub enabled: Option<bool>,
}

/// The risk fraction a strategy gets when none is given: 0.01.
pub fn default_risk() -> (r: Dec)
    ensures
        r.mantissa == 1 && r.scale == 2,
{
    Dec::new(1, 2)
}

/// The weight a rule gets when none is given: 1.
pub fn one_weight() -> (r: Dec)
    ensures
        r == spec_one(),
{
    one()
}

/// A trading note uploaded for extraction.
#[derive(Clone, Debug)]
pub struct Note {
    pub id: u128,
    pub account_id: u128,
    pub title: String,
    pub content: String,
    /// "text", "markdown", "json" or "yaml".
    pub content_type: String,
    pub status: NoteStatus,
    pub error: Option<String>,
    pub created_at: i64,
    pub processed_at: Option<i64>,
}

/// Input for uploading a note.
#[derive(Clone, Debug)]
pub struct CreateNote {
    pub title: String,
    pub content: String,
    pub content_type: String,
}

/// The content type a note gets when none is given: `markdown`.
pub fn default_content_type() -> (r: String)
    ensures
        r@ == "markdown"@,
{
    String::from_str("markdown")
}

} // verus!
