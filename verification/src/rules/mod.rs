//! The rule language: tokens, evaluation over indicators, indicator
//! computation and candlestick patterns.
pub mod lexer;
pub mod indicators;
pub mod eval;
pub mod series;
pub mod oscillators;
pub mod patterns;
pub mod chart;
pub mod divergence;
pub mod compute;
