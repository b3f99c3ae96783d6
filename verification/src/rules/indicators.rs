//! The indicator set that rule expressions read.
use crate::decimal::Dec;
use vstd::hash_map::{HashMapWithView, StringHashMap};
use vstd::prelude::*;

verus! {

/// Every value of the map is a valid decimal.
pub open spec fn map_wf<K>(m: Map<K, Dec>) -> bool {
    forall|k: K| #[trigger] m.contains_key(k) ==> m[k].wf()
}

/// Indicator set computed once per evaluation window.
pub struct Indicators {
    /// RSI by period.
    pub rsi: HashMapWithView<usize, Dec>,
    /// EMA by period.
    pub ema: HashMapWithView<usize, Dec>,
    /// SMA by period.
    pub sma: HashMapWithView<usize, Dec>,
    /// ATR by period.
    pub atr: HashMapWithView<usize, Dec>,
    pub macd: Option<Dec>,
    pub price: Dec,
    pub high: Dec,
    pub low: Dec,
    pub close: Dec,
    pub open: Dec,
    pub volume: Dec,
    pub pct_change: Dec,
    /// Candlestick pattern signals by name (1 = present, 0 = not) and strengths.
    pub patterns: StringHashMap<Dec>,
    /// Previous candle data for multi-candle patterns.
    pub prev_open: Dec,
    pub prev_close: Dec,
    pub prev_high: Dec,
    pub prev_low: Dec,
    /// Bollinger Bands (SMA20 +- 2 standard deviations).
    pub bb_upper: Dec,
    pub bb_middle: Dec,
    pub bb_lower: Dec,
    /// Stochastic Oscillator (%K, %D).
    pub stoch_k: Dec,
    pub stoch_d: Dec,
    /// ADX: trend strength (0-100); above 25 is a strong trend.
    pub adx: Dec,
    /// Recent swing high/low (support/resistance).
    pub swing_high: Dec,
    pub swing_low: Dec,
    /// Count of consecutive bullish / bearish candles at the end.
    pub consecutive_bullish: u32,
    pub consecutive_bearish: u32,
    /// Volatility regime: "expanding", "contracting" or "stable".
    pub volatility_regime: String,
    /// ATR of the window that ends 14 bars earlier.
    pub prev_atr: Dec,
    /// Bollinger Band width.
    pub bb_width: Dec,
    /// Bollinger Band width percentile (0-100, low = squeeze).
    pub bb_width_pct: Dec,
    /// Price position in the bands: 0 = lower band, 100 = upper band.
    pub bb_position_pct: Dec,
    /// Distance from swing high as % of the swing range.
    pub dist_from_swing_high_pct: Dec,
    /// Distance from swing low as % of the swing range.
    pub dist_from_swing_low_pct: Dec,
    /// Directions of the last 5 candles.
    pub candle_sequence: Vec<String>,
    /// 5-bar rate of change.
    pub roc_5: Dec,
    /// RSI divergence vs price: "bullish", "bearish" or "none".
    pub rsi_divergence: String,
    /// MACD divergence vs price: "bullish", "bearish" or "none".
    pub macd_divergence: String,
    /// Last bar volume over the average of the prior bars.
    pub volume_ratio: Dec,
}

impl Indicators {
    /// Every number held is a valid decimal.
    pub open spec fn wf(&self) -> bool {
        &&& map_wf(self.rsi@)
        &&& map_wf(self.ema@)
        &&& map_wf(self.sma@)
        &&& map_wf(self.atr@)
        &&& map_wf(self.patterns@)
        &&& (self.macd matches Some(d) ==> d.wf())
        &&& self.price.wf()
        &&& self.high.wf()
        &&& self.low.wf()
        &&& self.close.wf()
        &&& self.open.wf()
        &&& self.volume.wf()
        &&& self.pct_change.wf()
        &&& self.prev_open.wf()
        &&& self.prev_close.wf()
        &&& self.prev_high.wf()
        &&& self.prev_low.wf()
        &&& self.bb_upper.wf()
        &&& self.bb_middle.wf()
        &&& self.bb_lower.wf()
        &&& self.stoch_k.wf()
        &&& self.stoch_d.wf()
        &&& self.adx.wf()
        &&& self.swing_high.wf()
        &&& self.swing_low.wf()
        &&& self.prev_atr.wf()
        &&& self.bb_width.wf()
        &&& self.bb_width_pct.wf()
        &&& self.bb_position_pct.wf()
        &&& self.dist_from_swing_high_pct.wf()
        &&& self.dist_from_swing_low_pct.wf()
        &&& self.roc_5.wf()
        &&& self.volume_ratio.wf()
    }
}

} // verus!
