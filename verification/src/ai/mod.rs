//! Next-candle analysis: evidence, the decision it supports, the predicted
//! candle and the written report.
pub mod evidence;
pub mod candle;
pub mod report;
pub mod analyze;
